use vstd::prelude::*;

use crate::atoms::Atoms;
use crate::error::Error;
use crate::store::{ClipboardData, PayloadView};

verus! {

/// How long, in milliseconds, an owner has to answer a conversion request.
/// Some data, images most of all, take seconds to produce.
pub const LONG_TIMEOUT_MS: u64 = 4000;

/// How long, in milliseconds, the next segment of an incremental transfer
/// may take.
pub const SHORT_TIMEOUT_MS: u64 = 10;

/// `a + b`, or the largest `u64` where that does not fit.
pub open spec fn sat_add(a: u64, b: u64) -> u64 {
    if a + b <= u64::MAX {
        (a + b) as u64
    } else {
        u64::MAX
    }
}

/// An event seen by a reader on its own window.
#[derive(Clone, Copy, Debug)]
pub enum ReadEvent {
    /// The owner answered a conversion request.
    SelectionNotify { requestor: u32, selection: u32, target: u32, property: u32 },
    /// A property of the window changed; `new_value` is false when it was deleted.
    PropertyNotify { window: u32, atom: u32, new_value: bool },
    /// Any other event.
    Other,
}

/// Which reply a property fetch is for.
#[derive(Clone, Copy, Debug, PartialEq, Eq, Structural)]
pub enum Stage {
    /// The data named in the owner's answer.
    Answer,
    /// The `INCR` marker, read again to start the transfer of segments.
    IncrAck,
    /// One segment of an incremental transfer.
    Segment,
}

/// A property to read (and delete) from the display server.
#[derive(Clone, Copy, Debug, PartialEq, Eq, Structural)]
pub struct Fetch {
    pub stage: Stage,
    pub window: u32,
    pub property: u32,
    /// The property type to ask for.
    pub format: u32,
}

/// What the reader does next.
#[derive(Debug)]
pub enum ReadStep {
    /// Wait for the next event.
    Wait,
    /// Read the property and hand the reply to `on_reply`.
    Fetch(Fetch),
    /// The data has arrived.
    Done(Vec<u8>),
    /// The attempt is over without data.
    Fail(Error),
}

/// The state of a reader, as values.
pub struct ReadModel {
    pub target: u32,
    pub using_incr: bool,
    pub data: Seq<u8>,
    pub deadline: u64,
}

/// One attempt to obtain a selection's data in one format.
///
/// Times are milliseconds on a monotonic clock of the caller's choosing.
pub struct ReadSession {
    target: u32,
    using_incr: bool,
    data: Vec<u8>,
    deadline: u64,
}

/// The reader after a segment that is not empty arrived at `now`: the segment
/// is appended, and the next one is due within the short timeout.
pub open spec fn after_segment(m: ReadModel, segment: Seq<u8>, now: u64) -> ReadModel {
    ReadModel { data: m.data + segment, deadline: sat_add(now, SHORT_TIMEOUT_MS), ..m }
}

/// The data that a reader in state `m` returns when the segments arrive in
/// order, the i-th at `times[i]`: an empty segment ends the transfer.
pub open spec fn assemble(m: ReadModel, segments: Seq<Seq<u8>>, times: Seq<u64>) -> Option<
    Seq<u8>,
>
    decreases segments.len(),
{
    if segments.len() == 0 || times.len() == 0 {
        None
    } else if segments[0].len() == 0 {
        Some(m.data)
    } else {
        assemble(after_segment(m, segments[0], times[0]), segments.drop_first(), times.drop_first())
    }
}

impl View for ReadSession {
    type V = ReadModel;

    closed spec fn view(&self) -> ReadModel {
        ReadModel {
            target: self.target,
            using_incr: self.using_incr,
            data: self.data@,
            deadline: self.deadline,
        }
    }
}

impl ReadSession {
    /// A reader for `target` whose request went out at `now`.
    pub fn new(target: u32, now: u64) -> (r: ReadSession)
        ensures
            r@ == (ReadModel {
                target,
                using_incr: false,
                data: Seq::empty(),
                deadline: sat_add(now, LONG_TIMEOUT_MS),
            }),
    {
        ReadSession {
            target,
            using_incr: false,
            data: Vec::new(),
            deadline: now.saturating_add(LONG_TIMEOUT_MS),
        }
    }

    /// Whether the time for this attempt is up at `now`.
    pub fn is_expired(&self, now: u64) -> (r: bool)
        ensures
            r == (now >= self@.deadline),
    {
        now >= self.deadline
    }

    /// Handles the result of polling at `now`: `event` is `None` when no
    /// event was waiting.
    pub fn on_event(&mut self, atoms: &Atoms, event: Option<ReadEvent>, now: u64) -> (r: ReadStep)
        ensures
            final(self)@ == old(self)@,
            now >= old(self)@.deadline ==> r matches ReadStep::Fail(Error::ContentNotAvailable),
            now < old(self)@.deadline ==> match event {
                Some(ReadEvent::SelectionNotify { requestor, selection, target, property }) => {
                    if property == 0 || target != old(self)@.target {
                        r matches ReadStep::Fail(Error::ContentNotAvailable)
                    } else if atoms.spec_kind_of(selection) is None || old(self)@.using_incr {
                        r is Wait
                    } else {
                        r == ReadStep::Fetch(
                            Fetch { stage: Stage::Answer, window: requestor, property, format: target },
                        )
                    }
                },
                Some(ReadEvent::PropertyNotify { window, atom, new_value }) => {
                    if atom == atoms.transfer_property && new_value && old(self)@.using_incr {
                        r == ReadStep::Fetch(
                            Fetch {
                                stage: Stage::Segment,
                                window,
                                property: atom,
                                format: old(self)@.target,
                            },
                        )
                    } else {
                        r is Wait
                    }
                },
                _ => r is Wait,
            },
    {
        if now >= self.deadline {
            return ReadStep::Fail(Error::ContentNotAvailable);
        }
        match event {
            Some(ReadEvent::SelectionNotify { requestor, selection, target, property }) => {
                // A property of `None` means the owner declined; it must also
                // answer in the format that was asked for.
                if property == 0 || target != self.target {
                    ReadStep::Fail(Error::ContentNotAvailable)
                } else if atoms.kind_of(selection).is_none() || self.using_incr {
                    ReadStep::Wait
                } else {
                    ReadStep::Fetch(
                        Fetch { stage: Stage::Answer, window: requestor, property, format: target },
                    )
                }
            },
            Some(ReadEvent::PropertyNotify { window, atom, new_value }) => {
                // Before the transfer of segments starts, a change of the
                // property only says that the owner is at work.
                if atom == atoms.transfer_property && new_value && self.using_incr {
                    ReadStep::Fetch(
                        Fetch { stage: Stage::Segment, window, property: atom, format: self.target },
                    )
                } else {
                    ReadStep::Wait
                }
            },
            _ => ReadStep::Wait,
        }
    }

    /// Handles the reply to `fetch`, received at `now`: the property held
    /// `value`, of type `reply_type`.
    pub fn on_reply(
        &mut self,
        atoms: &Atoms,
        fetch: &Fetch,
        reply_type: u32,
        value: Vec<u8>,
        now: u64,
    ) -> (r: ReadStep)
        ensures
            fetch.stage == Stage::Answer ==> {
                &&& final(self)@ == old(self)@
                &&& if reply_type == old(self)@.target {
                    r matches ReadStep::Done(d) && d@ == value@
                } else if reply_type == atoms.incr {
                    r == ReadStep::Fetch(
                        Fetch {
                            stage: Stage::IncrAck,
                            window: fetch.window,
                            property: fetch.property,
                            format: atoms.incr,
                        },
                    )
                } else {
                    r matches ReadStep::Fail(Error::Unknown { .. })
                }
            },
            fetch.stage == Stage::IncrAck ==> {
                &&& r is Wait
                &&& final(self)@ == (ReadModel {
                    using_incr: true,
                    deadline: sat_add(now, SHORT_TIMEOUT_MS),
                    ..old(self)@
                })
            },
            fetch.stage == Stage::Segment ==> if value@.len() == 0 {
                &&& r matches ReadStep::Done(d) && d@ == old(self)@.data
                &&& final(self)@ == (ReadModel { data: Seq::empty(), ..old(self)@ })
            } else {
                &&& r is Wait
                &&& final(self)@ == after_segment(old(self)@, value@, now)
            },
    {
        match fetch.stage {
            Stage::Answer => {
                if reply_type == self.target {
                    ReadStep::Done(value)
                } else if reply_type == atoms.incr {
                    // The marker is read once more, with its own type, so that the
                    // server deletes it: that tells the owner to send segments.
                    ReadStep::Fetch(
                        Fetch {
                            stage: Stage::IncrAck,
                            window: fetch.window,
                            property: fetch.property,
                            format: atoms.incr,
                        },
                    )
                } else {
                    ReadStep::Fail(Error::unknown("incorrect type received from clipboard"))
                }
            },
            Stage::IncrAck => {
                // From here on, each segment must follow the last one promptly.
                self.using_incr = true;
                self.deadline = now.saturating_add(SHORT_TIMEOUT_MS);
                ReadStep::Wait
            },
            Stage::Segment => {
                if value.len() == 0 {
                    let mut data: Vec<u8> = Vec::new();
                    std::mem::swap(&mut data, &mut self.data);
                    assert(self@ =~= (ReadModel { data: Seq::empty(), ..old(self)@ }));
                    ReadStep::Done(data)
                } else {
                    let ghost segment = value@;
                    let mut value = value;
                    self.data.append(&mut value);
                    self.deadline = now.saturating_add(SHORT_TIMEOUT_MS);
                    assert(self@ =~= after_segment(old(self)@, segment, now));
                    ReadStep::Wait
                }
            },
        }
    }
}

/// How a read goes on after the attempt in `format` ended with `result`:
/// `None` means that the next format is tried; an unavailable format is
/// skipped, any other error ends the read.
pub fn after_attempt(format: u32, result: Result<Vec<u8>, Error>) -> (r: Option<
    Result<ClipboardData, Error>,
>)
    ensures
        match result {
            Ok(b) => r matches Some(Ok(d)) && d@ == (PayloadView { bytes: b@, format }),
            Err(Error::ContentNotAvailable) => r is None,
            Err(e) => r == Some(Err::<ClipboardData, Error>(e)),
        },
{
    match result {
        Ok(bytes) => Some(Ok(ClipboardData { bytes, format })),
        Err(Error::ContentNotAvailable) => None,
        Err(e) => Some(Err(e)),
    }
}

/// Segmented transfers: a reader fed segments that are not empty, followed
/// by an empty one that ends the transfer, returns what it had gathered before
/// them followed by the segments in their order, whenever each arrives.
pub proof fn lemma_segmented_assembly(m: ReadModel, segments: Seq<Seq<u8>>, times: Seq<u64>)
    requires
        segments.len() >= 1,
        times.len() == segments.len(),
        segments.last().len() == 0,
        forall|i: int| 0 <= i < segments.len() - 1 ==> #[trigger] segments[i].len() > 0,
    ensures
        assemble(m, segments, times) == Some(m.data + segments.drop_last().flatten()),
    decreases segments.len(),
{
    if segments.len() == 1 {
        assert(segments.drop_last() =~= Seq::<Seq<u8>>::empty());
        assert(m.data + Seq::<Seq<u8>>::empty().flatten() =~= m.data);
    } else {
        let rest = segments.drop_first();
        assert forall|i: int| 0 <= i < rest.len() - 1 implies #[trigger] rest[i].len() > 0 by {
            assert(rest[i] == segments[i + 1]);
        }
        assert(segments[0].len() > 0);
        let next = after_segment(m, segments[0], times[0]);
        lemma_segmented_assembly(next, rest, times.drop_first());
        assert(segments.drop_last().drop_first() =~= rest.drop_last());
        assert(segments.drop_last()[0] == segments[0]);
        assert(m.data + segments[0] + rest.drop_last().flatten() =~= m.data + (segments[0]
            + rest.drop_last().flatten()));
    }
}

} // verus!
