use vstd::prelude::*;

use crate::atoms::{lemma_kind_atom_inverse, Atoms, LinuxClipboardKind};
use crate::payload::{exclusion_payload, with_exclusion};
use crate::serve::{advertised_formats, formats_of, is_sensitive, targets_answer};
use crate::store::{pick_payload, PayloadView, SelectionState};

verus! {

/// Where the handover of the clipboard's data to a clipboard manager stands.
#[derive(Clone, Copy, Debug, PartialEq, Eq, Structural)]
pub enum HandoverState {
    Idle,
    InProgress,
    Finished,
}

/// The handover to a clipboard manager, with the two things that must both
/// be seen before it is finished: the manager asked for the contents and got
/// them (`written`), and the manager said it is done (`notified`). They may
/// come in either order.
pub struct Handover {
    state: HandoverState,
    written: bool,
    notified: bool,
}

/// The state of a handover, as values.
pub struct HandoverModel {
    pub state: HandoverState,
    pub written: bool,
    pub notified: bool,
}

impl View for Handover {
    type V = HandoverModel;

    closed spec fn view(&self) -> HandoverModel {
        HandoverModel { state: self.state, written: self.written, notified: self.notified }
    }
}

impl Handover {
    #[verifier::type_invariant]
    spec fn inv(self) -> bool {
        &&& self.state == HandoverState::Finished ==> self.written && self.notified
        &&& self.state == HandoverState::Idle ==> !self.written && !self.notified
    }

    /// A handover that has not started.
    pub fn new() -> (r: Handover)
        ensures
            r@ == (HandoverModel { state: HandoverState::Idle, written: false, notified: false }),
    {
        Handover { state: HandoverState::Idle, written: false, notified: false }
    }

    /// The current state.
    pub fn state(&self) -> (r: HandoverState)
        ensures
            r == self@.state,
            r == HandoverState::Finished ==> self@.written && self@.notified,
    {
        proof {
            use_type_invariant(self);
        }
        self.state
    }

    /// The request to save was sent to the manager.
    pub fn begin(&mut self)
        requires
            old(self)@.state == HandoverState::Idle,
        ensures
            final(self)@ == (HandoverModel { state: HandoverState::InProgress, ..old(self)@ }),
    {
        proof {
            use_type_invariant(&*self);
        }
        self.state = HandoverState::InProgress;
    }

    /// A request for `target` was answered. While the handover is in
    /// progress, a request for anything but `TARGETS` is the manager taking
    /// the contents. Returns whether the handover finished just now.
    pub fn content_served(&mut self, atoms: &Atoms, target: u32) -> (r: bool)
        ensures
            if old(self)@.state == HandoverState::InProgress && target != atoms.targets {
                &&& final(self)@.written
                &&& final(self)@.notified == old(self)@.notified
                &&& final(self)@.state == if old(self)@.notified {
                    HandoverState::Finished
                } else {
                    HandoverState::InProgress
                }
                &&& r == old(self)@.notified
            } else {
                final(self)@ == old(self)@ && !r
            },
    {
        proof {
            use_type_invariant(&*self);
        }
        if self.state == HandoverState::InProgress && target != atoms.targets {
            self.written = true;
            if self.notified {
                self.state = HandoverState::Finished;
                return true;
            }
        }
        false
    }

    /// The manager answered the save request. Some managers answer before
    /// they ask for the contents, so this alone does not finish the
    /// handover. Returns whether the handover finished just now.
    pub fn manager_notified(&mut self) -> (r: bool)
        ensures
            if old(self)@.state == HandoverState::InProgress {
                &&& final(self)@.notified
                &&& final(self)@.written == old(self)@.written
                &&& final(self)@.state == if old(self)@.written {
                    HandoverState::Finished
                } else {
                    HandoverState::InProgress
                }
                &&& r == old(self)@.written
            } else {
                final(self)@ == old(self)@ && !r
            },
    {
        proof {
            use_type_invariant(&*self);
        }
        if self.state == HandoverState::InProgress {
            self.notified = true;
            if self.written {
                self.state = HandoverState::Finished;
                return true;
            }
        }
        false
    }
}

/// An event on the serving window.
#[derive(Clone, Copy, Debug)]
pub enum ServerEvent {
    /// The window is being destroyed.
    DestroyNotify,
    /// Another client took ownership of `selection`.
    SelectionClear { selection: u32 },
    /// Another client asks for the data of `selection` in `target`.
    SelectionRequest { selection: u32, target: u32 },
    /// An answer to a conversion request made from the serving window.
    SelectionNotify { selection: u32 },
    /// Any other event.
    Other,
}

/// What the service loop does with an event.
#[derive(Clone, Copy, Debug, PartialEq, Eq, Structural)]
pub enum ServerAction {
    /// Leave the loop.
    Stop,
    /// Withdraw the data of this selection and wake its waiters.
    Withdraw(LinuxClipboardKind),
    /// Answer the request: with `answer_request` when the selection is one of
    /// ours, else with `refuse_request`. Then record it with
    /// `Handover::content_served`.
    Answer(Option<LinuxClipboardKind>),
    /// Record the manager's answer with `Handover::manager_notified`.
    ManagerAnswered,
    /// Nothing to do.
    Ignore,
}

/// The service loop's decision for `event`.
pub open spec fn server_action(atoms: Atoms, event: ServerEvent) -> ServerAction {
    match event {
        ServerEvent::DestroyNotify => ServerAction::Stop,
        ServerEvent::SelectionClear { selection } => match atoms.spec_kind_of(selection) {
            Some(kind) => ServerAction::Withdraw(kind),
            None => ServerAction::Ignore,
        },
        ServerEvent::SelectionRequest { selection, .. } => ServerAction::Answer(
            atoms.spec_kind_of(selection),
        ),
        ServerEvent::SelectionNotify { selection } => if selection == atoms.clipboard_manager {
            ServerAction::ManagerAnswered
        } else {
            ServerAction::Ignore
        },
        ServerEvent::Other => ServerAction::Ignore,
    }
}

/// The service loop's decision for `event`.
pub fn dispatch(atoms: &Atoms, event: ServerEvent) -> (r: ServerAction)
    ensures
        r == server_action(*atoms, event),
{
    match event {
        ServerEvent::DestroyNotify => ServerAction::Stop,
        ServerEvent::SelectionClear { selection } => match atoms.kind_of(selection) {
            Some(kind) => ServerAction::Withdraw(kind),
            None => ServerAction::Ignore,
        },
        ServerEvent::SelectionRequest { selection, .. } => ServerAction::Answer(
            atoms.kind_of(selection),
        ),
        ServerEvent::SelectionNotify { selection } => {
            // This thread makes no reads of its own: an answer can only come
            // from the clipboard manager.
            if selection == atoms.clipboard_manager {
                ServerAction::ManagerAnswered
            } else {
                ServerAction::Ignore
            }
        },
        ServerEvent::Other => ServerAction::Ignore,
    }
}

/// What to do with the clipboard's data when the last handle goes away.
#[derive(Clone, Copy, Debug, PartialEq, Eq, Structural)]
pub enum HandoverPlan {
    /// Nothing: there is no data of ours to keep.
    Skip,
    /// Give up ownership, so that no manager takes the process's exit for a
    /// crash and saves sensitive data anyway.
    Release,
    /// Ask the clipboard manager to save the data.
    RequestSave,
}

/// The plan for the `Clipboard` selection at teardown, given the serving
/// window, whether it owns the selection and what it offers for it.
pub open spec fn handover_plan(
    atoms: Atoms,
    window: u32,
    is_owner: bool,
    offer: Option<Seq<PayloadView>>,
) -> HandoverPlan {
    if window == 0 || !is_owner {
        HandoverPlan::Skip
    } else {
        match offer {
            None => HandoverPlan::Skip,
            Some(ps) => if is_sensitive(atoms, ps) {
                HandoverPlan::Release
            } else {
                HandoverPlan::RequestSave
            },
        }
    }
}

/// The plan for the `Clipboard` selection at teardown: `window` is the serving
/// window, `is_owner` whether it owns the selection, `state` what it offers.
/// Managers only save the `Clipboard` selection.
pub fn plan_handover(atoms: &Atoms, window: u32, is_owner: bool, state: &SelectionState) -> (r:
    HandoverPlan)
    ensures
        r == handover_plan(*atoms, window, is_owner, state.offer()),
{
    if window == 0 || !is_owner {
        return HandoverPlan::Skip;
    }
    match state.payloads() {
        None => HandoverPlan::Skip,
        Some(list) => {
            let ghost ps = state.offer()->0;
            let mut i: usize = 0;
            while i < list.len()
                invariant
                    0 <= i <= list@.len(),
                    Some(ps) == state.offer(),
                    ps == crate::store::payload_views(list@),
                    ps.len() == list@.len(),
                    window != 0 && is_owner,
                    forall|k: int| 0 <= k < i ==> #[trigger] ps[k].format != atoms.exclusion_hint,
                decreases list@.len() - i,
            {
                if list[i].format == atoms.exclusion_hint {
                    assert(ps[i as int].format == atoms.exclusion_hint);
                    return HandoverPlan::Release;
                }
                i = i + 1;
            }
            HandoverPlan::RequestSave
        },
    }
}

/// How many holders share the engine while exactly one handle is left: the
/// process-wide registry, the service thread and that handle.
pub const MIN_OWNERS: usize = 3;

/// Whether a handle that sees `share_count` holders of the engine is the
/// last one, and so must tear it down.
pub fn is_last_handle(share_count: usize) -> (r: bool)
    ensures
        r == (share_count == MIN_OWNERS),
{
    share_count == MIN_OWNERS
}

/// Ownership is exclusive: when another client takes a selection over, the
/// service loop withdraws that selection's data, and a local read of it then
/// finds nothing, whatever formats it accepts.
pub proof fn lemma_ownership_taken_over(atoms: Atoms, kind: LinuxClipboardKind, formats: Seq<u32>)
    requires
        atoms.wf(),
    ensures
        server_action(atoms, ServerEvent::SelectionClear { selection: atoms.spec_atom_of(kind) })
            == ServerAction::Withdraw(kind),
        pick_payload(None, formats) is None,
{
    lemma_kind_atom_inverse(atoms, kind);
}

/// The formats in which the library writes data of its own.
pub open spec fn is_data_format(atoms: Atoms, format: u32) -> bool {
    ||| format == atoms.utf8_string
    ||| format == atoms.html
    ||| format == atoms.png_mime
    ||| format == atoms.uri_list
}

/// No advertised format is `x` when no payload is in format `x` and `x` is
/// neither of the UTF-8 aliases.
proof fn lemma_advertised_avoids(atoms: Atoms, ps: Seq<PayloadView>, x: u32)
    requires
        x != atoms.utf8_mime_0,
        x != atoms.utf8_mime_1,
        forall|i: int| 0 <= i < ps.len() ==> #[trigger] ps[i].format != x,
    ensures
        !advertised_formats(atoms, ps).contains(x),
    decreases ps.len(),
{
    if ps.len() > 0 {
        let init = ps.drop_last();
        assert forall|i: int| 0 <= i < init.len() implies #[trigger] init[i].format != x by {
            assert(init[i] == ps[i]);
        }
        lemma_advertised_avoids(atoms, init, x);
        assert(ps.last() == ps[ps.len() - 1]);
        let f = formats_of(atoms, ps.last());
        assert(!f.contains(x));
        let a = advertised_formats(atoms, ps);
        assert(a == advertised_formats(atoms, init) + f);
        assert forall|k: int| 0 <= k < a.len() implies a[k] != x by {
            if k < advertised_formats(atoms, init).len() {
                assert(a[k] == advertised_formats(atoms, init)[k]);
            } else {
                assert(a[k] == f[k - advertised_formats(atoms, init).len()]);
            }
        }
    }
}

/// A sensitive offer never advertises `SAVE_TARGETS`, so long as no payload
/// is itself in that format.
pub proof fn lemma_sensitive_targets_omit_save(atoms: Atoms, ps: Seq<PayloadView>)
    requires
        atoms.wf(),
        is_sensitive(atoms, ps),
        forall|i: int| 0 <= i < ps.len() ==> #[trigger] ps[i].format != atoms.save_targets,
    ensures
        !targets_answer(atoms, Some(ps)).contains(atoms.save_targets),
{
    let q = atoms.seq();
    assert(q[4] != q[9] && q[4] != q[10] && q[4] != q[5]);
    lemma_advertised_avoids(atoms, ps, atoms.save_targets);
    let t = targets_answer(atoms, Some(ps));
    let a = advertised_formats(atoms, ps);
    assert(t =~= a + seq![atoms.targets]);
    assert forall|k: int| 0 <= k < t.len() implies t[k] != atoms.save_targets by {
        if k < a.len() {
            assert(t[k] == a[k]);
        }
    }
}

/// Sensitive data is never offered for saving: when the library's own
/// payloads are written with the exclusion marker, the list of formats that
/// it advertises leaves out `SAVE_TARGETS`, and at teardown the owner gives
/// the selection up instead of handing the data to a clipboard manager.
pub proof fn lemma_sensitive_never_saved(atoms: Atoms, base: Seq<PayloadView>, window: u32)
    requires
        atoms.wf(),
        window != 0,
        forall|i: int| 0 <= i < base.len() ==> is_data_format(atoms, #[trigger] base[i].format),
    ensures
        !targets_answer(atoms, Some(with_exclusion(atoms, base, true))).contains(
            atoms.save_targets,
        ),
        handover_plan(atoms, window, true, Some(with_exclusion(atoms, base, true)))
            == HandoverPlan::Release,
{
    let ps = with_exclusion(atoms, base, true);
    let q = atoms.seq();
    assert(q[4] != q[8] && q[4] != q[14] && q[4] != q[15] && q[4] != q[16] && q[4] != q[17]);
    assert(ps[base.len() as int] == exclusion_payload(atoms));
    assert(ps[base.len() as int].format == atoms.exclusion_hint);
    assert(0 <= base.len() < ps.len());
    assert forall|i: int| 0 <= i < ps.len() implies #[trigger] ps[i].format != atoms.save_targets by {
        if i < base.len() {
            assert(ps[i] == base[i]);
            assert(is_data_format(atoms, base[i].format));
        }
    }
    lemma_sensitive_targets_omit_save(atoms, ps);
}

} // verus!
