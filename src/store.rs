use vstd::prelude::*;

use crate::error::Error;

verus! {

/// One representation of the offered data: its bytes and the atom of its format.
#[derive(Debug)]
pub struct ClipboardData {
    pub bytes: Vec<u8>,
    pub format: u32,
}

/// What a `ClipboardData` holds, as values.
pub struct PayloadView {
    pub bytes: Seq<u8>,
    pub format: u32,
}

impl View for ClipboardData {
    type V = PayloadView;

    open spec fn view(&self) -> PayloadView {
        PayloadView { bytes: self.bytes@, format: self.format }
    }
}

impl ClipboardData {
    /// A copy with the same bytes and format.
    pub fn duplicate(&self) -> (r: ClipboardData)
        ensures
            r@ == self@,
    {
        let bytes = self.bytes.clone();
        assert(bytes@ =~= self.bytes@);
        ClipboardData { bytes, format: self.format }
    }
}

/// The views of a list of payloads.
pub open spec fn payload_views(v: Seq<ClipboardData>) -> Seq<PayloadView> {
    v.map_values(|d: ClipboardData| d@)
}

/// The first payload of `ps` whose format is `format`.
pub open spec fn first_with_format(ps: Seq<PayloadView>, format: u32) -> Option<PayloadView>
    decreases ps.len(),
{
    if ps.len() == 0 {
        None
    } else if ps[0].format == format {
        Some(ps[0])
    } else {
        first_with_format(ps.drop_first(), format)
    }
}

/// The payload that a reader accepting `formats` (most preferred first) gets
/// from the offered set: the first accepted format that is offered decides,
/// and of the payloads in that format the first one is taken.
pub open spec fn pick_payload(offer: Option<Seq<PayloadView>>, formats: Seq<u32>) -> Option<
    PayloadView,
>
    decreases formats.len(),
{
    match offer {
        None => None,
        Some(ps) => if formats.len() == 0 {
            None
        } else {
            match first_with_format(ps, formats[0]) {
                Some(p) => Some(p),
                None => pick_payload(offer, formats.drop_first()),
            }
        },
    }
}

/// The state of one selection: the payloads this process offers for it, if
/// any, and a counter that moves on with every change of them.
///
/// An offered set is never empty. It is replaced as a whole, never edited.
pub struct SelectionState {
    payloads: Option<Vec<ClipboardData>>,
    generation: u64,
}

impl SelectionState {
    #[verifier::type_invariant]
    spec fn inv(self) -> bool {
        self.payloads matches Some(v) ==> v@.len() > 0
    }

    /// The offered payloads, or `None` when this process offers nothing.
    pub closed spec fn offer(&self) -> Option<Seq<PayloadView>> {
        match self.payloads {
            Some(v) => Some(payload_views(v@)),
            None => None,
        }
    }

    /// The change counter.
    pub closed spec fn spec_generation(&self) -> u64 {
        self.generation
    }

    /// A selection that offers nothing.
    pub fn new() -> (r: SelectionState)
        ensures
            r.offer() is None,
    {
        SelectionState { payloads: None, generation: 0 }
    }

    /// Replaces the offered set by `payloads`.
    pub fn write(&mut self, payloads: Vec<ClipboardData>)
        requires
            payloads@.len() > 0,
        ensures
            final(self).offer() == Some(payload_views(payloads@)),
            final(self).spec_generation() != old(self).spec_generation(),
    {
        self.payloads = Some(payloads);
        self.generation = self.generation.wrapping_add(1);
    }

    /// Withdraws the offered set: another client owns the selection now, or
    /// it was released.
    pub fn clear(&mut self)
        ensures
            final(self).offer() is None,
            final(self).spec_generation() != old(self).spec_generation(),
    {
        self.payloads = None;
        self.generation = self.generation.wrapping_add(1);
    }

    /// Whether this process offers data for the selection.
    pub fn is_offered(&self) -> (r: bool)
        ensures
            r == self.offer() is Some,
    {
        self.payloads.is_some()
    }

    /// The change counter; a waiter compares it with an earlier reading.
    pub fn generation(&self) -> (r: u64)
        ensures
            r == self.spec_generation(),
    {
        self.generation
    }

    /// Whether the offered set changed since the change counter read `generation`.
    pub fn changed_since(&self, generation: u64) -> (r: bool)
        ensures
            r == (self.spec_generation() != generation),
    {
        self.generation != generation
    }

    /// The offered payloads, in the order in which they were written.
    pub fn payloads(&self) -> (r: Option<&Vec<ClipboardData>>)
        ensures
            match r {
                Some(v) => self.offer() == Some(payload_views(v@)) && v@.len() > 0,
                None => self.offer() is None,
            },
    {
        proof {
            use_type_invariant(self);
        }
        match &self.payloads {
            Some(v) => Some(v),
            None => None,
        }
    }

    /// The payload of the first format in `formats` that is offered.
    pub fn read_local(&self, formats: &[u32]) -> (r: Result<ClipboardData, Error>)
        ensures
            match pick_payload(self.offer(), formats@) {
                Some(p) => r matches Ok(d) && d@ == p,
                None => r matches Err(Error::ContentNotAvailable),
            },
    {
        match &self.payloads {
            None => Err(Error::ContentNotAvailable),
            Some(list) => {
                let ghost offer = self.offer();
                let mut i: usize = 0;
                assert(formats@.skip(0) =~= formats@);
                while i < formats.len()
                    invariant
                        0 <= i <= formats@.len(),
                        offer == Some(payload_views(list@)),
                        offer == self.offer(),
                        pick_payload(offer, formats@) == pick_payload(offer, formats@.skip(i as int)),
                    decreases formats@.len() - i,
                {
                    let found = find_format(list, formats[i]);
                    assert(formats@.skip(i as int)[0] == formats@[i as int]);
                    assert(formats@.skip(i as int).drop_first() =~= formats@.skip(i + 1));
                    if let Some(d) = found {
                        return Ok(d);
                    }
                    i = i + 1;
                }
                Err(Error::ContentNotAvailable)
            },
        }
    }
}

/// The check that opens a write: once the service thread has stopped, no
/// one would answer requests for the data, so the write fails at once.
pub fn ensure_serving(stopped: bool) -> (r: Result<(), Error>)
    ensures
        stopped ==> r matches Err(Error::Unknown { .. }),
        !stopped ==> r is Ok,
{
    if stopped {
        Err(
            Error::unknown(
                "The clipboard handler thread seems to have stopped. Logging messages may reveal the cause. (See the `log` crate.)",
            ),
        )
    } else {
        Ok(())
    }
}

/// A copy of the first payload of `list` in `format`.
pub fn find_format(list: &Vec<ClipboardData>, format: u32) -> (r: Option<ClipboardData>)
    ensures
        match first_with_format(payload_views(list@), format) {
            Some(p) => r matches Some(d) && d@ == p,
            None => r is None,
        },
{
    let ghost ps = payload_views(list@);
    let mut j: usize = 0;
    assert(ps.skip(0) =~= ps);
    while j < list.len()
        invariant
            0 <= j <= list@.len(),
            ps == payload_views(list@),
            first_with_format(ps, format) == first_with_format(ps.skip(j as int), format),
        decreases list@.len() - j,
    {
        assert(ps.skip(j as int)[0] == list@[j as int]@);
        assert(ps.skip(j as int).drop_first() =~= ps.skip(j + 1));
        if list[j].format == format {
            return Some(list[j].duplicate());
        }
        j = j + 1;
    }
    None
}

/// Reading back what was written: once a single payload `bytes` in `format`
/// is offered, a read that accepts `format` gets exactly that payload.
pub proof fn lemma_write_read_round_trip(bytes: Seq<u8>, format: u32)
    ensures
        pick_payload(Some(seq![PayloadView { bytes, format }]), seq![format]) == Some(
            PayloadView { bytes, format },
        ),
{
    let ps = seq![PayloadView { bytes, format }];
    assert(first_with_format(ps, format) == Some(ps[0]));
}

/// A payload that `first_with_format` finds is in that format and is one of
/// the offered payloads.
pub proof fn lemma_found_payload(ps: Seq<PayloadView>, format: u32)
    ensures
        first_with_format(ps, format) matches Some(p) ==> p.format == format && ps.contains(p),
    decreases ps.len(),
{
    if ps.len() > 0 && ps[0].format != format {
        lemma_found_payload(ps.drop_first(), format);
        if first_with_format(ps.drop_first(), format) is Some {
            let p = first_with_format(ps.drop_first(), format)->0;
            let i = choose|i: int| 0 <= i < ps.drop_first().len() && ps.drop_first()[i] == p;
            assert(ps[i + 1] == p);
        }
    } else if ps.len() > 0 {
        assert(ps[0] == ps[0]);
    }
}

/// The reader's order of preference decides, for any offer: when `formats[j]`
/// is the first accepted format that is offered, a read gets the first
/// offered payload in that format, whatever the order of the offer.
pub proof fn lemma_preference_decides(ps: Seq<PayloadView>, formats: Seq<u32>, j: int)
    requires
        0 <= j < formats.len(),
        first_with_format(ps, formats[j]) is Some,
        forall|k: int| 0 <= k < j ==> #[trigger] first_with_format(ps, formats[k]) is None,
    ensures
        pick_payload(Some(ps), formats) == first_with_format(ps, formats[j]),
        pick_payload(Some(ps), formats)->0.format == formats[j],
        ps.contains(pick_payload(Some(ps), formats)->0),
    decreases j,
{
    lemma_found_payload(ps, formats[j]);
    if j > 0 {
        let rest = formats.drop_first();
        assert(first_with_format(ps, formats[0]) is None);
        assert forall|k: int| 0 <= k < j - 1 implies #[trigger] first_with_format(ps, rest[k])
            is None by {
            assert(rest[k] == formats[k + 1]);
        }
        assert(rest[j - 1] == formats[j]);
        lemma_preference_decides(ps, rest, j - 1);
    }
}

/// The reader's order of preference decides: of an offer of two payloads in
/// different formats, in either order, a read that prefers `a`'s format gets
/// `a`, and one that prefers `b`'s format gets `b`.
pub proof fn lemma_format_preference(ps: Seq<PayloadView>, a: PayloadView, b: PayloadView)
    requires
        a.format != b.format,
        ps == seq![a, b] || ps == seq![b, a],
    ensures
        pick_payload(Some(ps), seq![a.format, b.format]) == Some(a),
        pick_payload(Some(ps), seq![b.format, a.format]) == Some(b),
{
    assert(ps.drop_first().drop_first().len() == 0);
    assert(first_with_format(ps, a.format) == Some(a)) by {
        if ps[0] != a {
            assert(first_with_format(ps.drop_first(), a.format) == Some(a));
        }
    }
    assert(first_with_format(ps, b.format) == Some(b)) by {
        if ps[0] != b {
            assert(first_with_format(ps.drop_first(), b.format) == Some(b));
        }
    }
}

} // verus!
