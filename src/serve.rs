use vstd::prelude::*;

use crate::atoms::Atoms;
use crate::store::{
    find_format, first_with_format, payload_views, ClipboardData, PayloadView, SelectionState,
};

verus! {

/// What to write into the requestor's property before the answer is sent.
#[derive(Debug)]
pub enum PropertyWrite {
    /// The list of formats offered, written as 32-bit atoms of type `ATOM`.
    Targets(Vec<u32>),
    /// The data in the requested format, written as 8-bit values.
    Bytes { format: u32, bytes: Vec<u8> },
}

/// The answer to a request for a selection's data.
#[derive(Debug)]
pub struct ServeReply {
    /// What to store in the requestor's property, if anything.
    pub write: Option<PropertyWrite>,
    /// The property named in the notification that ends the exchange:
    /// the requested one on success, `None` (zero) on refusal.
    pub notify_property: u32,
}

/// The formats advertised for one payload: its own, and for UTF-8 text also
/// the equivalent MIME names.
pub open spec fn formats_of(atoms: Atoms, p: PayloadView) -> Seq<u32> {
    if p.format == atoms.utf8_string {
        seq![p.format, atoms.utf8_mime_0, atoms.utf8_mime_1]
    } else {
        seq![p.format]
    }
}

/// The formats advertised for a list of payloads, in their order.
pub open spec fn advertised_formats(atoms: Atoms, ps: Seq<PayloadView>) -> Seq<u32>
    decreases ps.len(),
{
    if ps.len() == 0 {
        seq![]
    } else {
        advertised_formats(atoms, ps.drop_last()) + formats_of(atoms, ps.last())
    }
}

/// Whether the payloads carry the marker that keeps them out of histories.
pub open spec fn is_sensitive(atoms: Atoms, ps: Seq<PayloadView>) -> bool {
    exists|i: int| 0 <= i < ps.len() && #[trigger] ps[i].format == atoms.exclusion_hint
}

/// The answer to a `TARGETS` request: the advertised formats, then `TARGETS`
/// itself, then `SAVE_TARGETS` unless the data is sensitive.
pub open spec fn targets_answer(atoms: Atoms, offer: Option<Seq<PayloadView>>) -> Seq<u32> {
    match offer {
        None => seq![atoms.targets, atoms.save_targets],
        Some(ps) => advertised_formats(atoms, ps) + seq![atoms.targets] + if is_sensitive(
            atoms,
            ps,
        ) {
            Seq::<u32>::empty()
        } else {
            seq![atoms.save_targets]
        },
    }
}

/// The formats advertised for `list`, and whether it is sensitive.
fn advertise(atoms: &Atoms, list: &Vec<ClipboardData>) -> (r: (Vec<u32>, bool))
    ensures
        r.0@ == advertised_formats(*atoms, payload_views(list@)),
        r.1 == is_sensitive(*atoms, payload_views(list@)),
{
    let ghost ps = payload_views(list@);
    let mut targets: Vec<u32> = Vec::new();
    let mut excluded = false;
    let mut i: usize = 0;
    while i < list.len()
        invariant
            0 <= i <= list@.len(),
            ps == payload_views(list@),
            targets@ == advertised_formats(*atoms, ps.subrange(0, i as int)),
            excluded == exists|k: int| 0 <= k < i && #[trigger] ps[k].format == atoms.exclusion_hint,
        decreases list@.len() - i,
    {
        let format = list[i].format;
        assert(ps.subrange(0, i + 1).drop_last() =~= ps.subrange(0, i as int));
        assert(ps.subrange(0, i + 1).last() == ps[i as int]);
        targets.push(format);
        if format == atoms.utf8_string {
            targets.push(atoms.utf8_mime_0);
            targets.push(atoms.utf8_mime_1);
        }
        assert(targets@ =~= advertised_formats(*atoms, ps.subrange(0, i + 1)));
        if format == atoms.exclusion_hint {
            excluded = true;
        }
        i = i + 1;
    }
    assert(ps.subrange(0, list@.len() as int) =~= ps);
    (targets, excluded)
}

/// The answer to a request that cannot be served, such as one for a selection
/// that is none of ours: nothing is written, and the notification that ends
/// the exchange names no property, so the requestor is not left waiting.
pub fn refuse_request() -> (r: ServeReply)
    ensures
        r.write is None,
        r.notify_property == 0,
{
    ServeReply { write: None, notify_property: 0 }
}

/// Answers a request of another client for the data of a selection whose
/// state is `state`: `target` is the format asked for and `property` the
/// requestor's property that receives it.
///
/// A `TARGETS` request is answered with the list of offered formats. Any other
/// request gets the first offered payload in that format, or a refusal when
/// there is none. Every request gets an answer.
pub fn answer_request(atoms: &Atoms, state: &SelectionState, target: u32, property: u32) -> (r:
    ServeReply)
    ensures
        target == atoms.targets ==> {
            &&& r.write matches Some(PropertyWrite::Targets(t))
            &&& t@ == targets_answer(*atoms, state.offer())
            &&& r.notify_property == property
        },
        target != atoms.targets ==> match state.offer() {
            Some(ps) => match first_with_format(ps, target) {
                Some(p) => {
                    &&& r.write matches Some(PropertyWrite::Bytes { format, bytes })
                    &&& format == target
                    &&& bytes@ == p.bytes
                    &&& r.notify_property == property
                },
                None => r.write is None && r.notify_property == 0,
            },
            None => r.write is None && r.notify_property == 0,
        },
{
    if target == atoms.targets {
        let mut targets: Vec<u32>;
        match state.payloads() {
            Some(list) => {
                let (t, excluded) = advertise(atoms, list);
                targets = t;
                targets.push(atoms.targets);
                if !excluded {
                    targets.push(atoms.save_targets);
                }
                assert(targets@ =~= targets_answer(*atoms, state.offer()));
            },
            None => {
                targets = Vec::new();
                targets.push(atoms.targets);
                targets.push(atoms.save_targets);
                assert(targets@ =~= targets_answer(*atoms, state.offer()));
            },
        }
        ServeReply { write: Some(PropertyWrite::Targets(targets)), notify_property: property }
    } else {
        match state.payloads() {
            Some(list) => match find_format(list, target) {
                Some(d) => ServeReply {
                    write: Some(PropertyWrite::Bytes { format: target, bytes: d.bytes }),
                    notify_property: property,
                },
                None => ServeReply { write: None, notify_property: 0 },
            },
            None => ServeReply { write: None, notify_property: 0 },
        }
    }
}

} // verus!
