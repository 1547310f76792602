use vstd::prelude::*;

verus! {

/// Clipboard selection.
///
/// X11 has three independent selections, each named by its own atom.
#[derive(Copy, Clone, Debug, PartialEq, Eq, Structural)]
pub enum LinuxClipboardKind {
    /// The selection used for explicit cut, copy and paste.
    Clipboard,
    /// The selection that follows the mouse; pasted with a middle click.
    Primary,
    /// The rarely used secondary selection.
    Secondary,
}

/// The atoms that the protocol uses, as interned on the display server.
///
/// Distinct names intern to distinct atoms, so in a set obtained from the
/// server all of them differ (`wf`).
#[derive(Copy, Clone, Debug)]
pub struct Atoms {
    pub clipboard: u32,
    pub primary: u32,
    pub secondary: u32,
    pub clipboard_manager: u32,
    pub save_targets: u32,
    pub targets: u32,
    pub atom: u32,
    pub incr: u32,
    pub utf8_string: u32,
    /// `text/plain;charset=utf-8`
    pub utf8_mime_0: u32,
    /// `text/plain;charset=UTF-8`
    pub utf8_mime_1: u32,
    /// Text in ISO Latin-1.
    pub string: u32,
    /// Text in an unknown encoding.
    pub text: u32,
    /// `text/plain`
    pub text_mime_unknown: u32,
    /// `text/html`
    pub html: u32,
    /// `text/uri-list`
    pub uri_list: u32,
    /// `image/png`
    pub png_mime: u32,
    /// The marker format that asks history keepers to skip the data.
    pub exclusion_hint: u32,
    /// The property on our windows into which owners write what we asked for.
    pub transfer_property: u32,
}

impl Atoms {
    pub open spec fn seq(&self) -> Seq<u32> {
        seq![
            self.clipboard, self.primary, self.secondary, self.clipboard_manager,
            self.save_targets, self.targets, self.atom, self.incr, self.utf8_string,
            self.utf8_mime_0, self.utf8_mime_1, self.string, self.text,
            self.text_mime_unknown, self.html, self.uri_list, self.png_mime,
            self.exclusion_hint, self.transfer_property,
        ]
    }

    /// All atoms differ from each other and from `None` (zero).
    pub open spec fn wf(&self) -> bool {
        &&& forall|i: int, j: int|
            0 <= i < j < self.seq().len() ==> #[trigger] self.seq()[i] != #[trigger] self.seq()[j]
        &&& forall|i: int| 0 <= i < self.seq().len() ==> #[trigger] self.seq()[i] != 0
    }

    pub open spec fn spec_atom_of(&self, kind: LinuxClipboardKind) -> u32 {
        match kind {
            LinuxClipboardKind::Clipboard => self.clipboard,
            LinuxClipboardKind::Primary => self.primary,
            LinuxClipboardKind::Secondary => self.secondary,
        }
    }

    pub open spec fn spec_kind_of(&self, atom: u32) -> Option<LinuxClipboardKind> {
        if atom == self.clipboard {
            Some(LinuxClipboardKind::Clipboard)
        } else if atom == self.primary {
            Some(LinuxClipboardKind::Primary)
        } else if atom == self.secondary {
            Some(LinuxClipboardKind::Secondary)
        } else {
            None
        }
    }

    /// The atom that names `kind` on the server.
    pub fn atom_of(&self, kind: LinuxClipboardKind) -> (r: u32)
        ensures
            r == self.spec_atom_of(kind),
    {
        match kind {
            LinuxClipboardKind::Clipboard => self.clipboard,
            LinuxClipboardKind::Primary => self.primary,
            LinuxClipboardKind::Secondary => self.secondary,
        }
    }

    /// The selection kind that `atom` names, if it names one.
    pub fn kind_of(&self, atom: u32) -> (r: Option<LinuxClipboardKind>)
        ensures
            r == self.spec_kind_of(atom),
    {
        if atom == self.clipboard {
            Some(LinuxClipboardKind::Clipboard)
        } else if atom == self.primary {
            Some(LinuxClipboardKind::Primary)
        } else if atom == self.secondary {
            Some(LinuxClipboardKind::Secondary)
        } else {
            None
        }
    }
}

/// With distinct atoms, naming a kind and reading it back are inverse.
pub proof fn lemma_kind_atom_inverse(atoms: Atoms, kind: LinuxClipboardKind)
    requires
        atoms.wf(),
    ensures
        atoms.spec_kind_of(atoms.spec_atom_of(kind)) == Some(kind),
{
    assert(atoms.seq()[0] != atoms.seq()[1]);
    assert(atoms.seq()[0] != atoms.seq()[2]);
    assert(atoms.seq()[1] != atoms.seq()[2]);
}

} // verus!
