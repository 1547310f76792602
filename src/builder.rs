use vstd::prelude::*;

use crate::atoms::LinuxClipboardKind;
use crate::error::Error;

verus! {

#[verifier::external_type_specification]
#[verifier::external_body]
pub struct ExInstant(std::time::Instant);

/// How long a write waits for its data to be replaced.
#[derive(Clone, Copy, Debug)]
pub enum WaitConfig {
    /// Until the given instant.
    Until(std::time::Instant),
    /// Until the data is replaced, however long that takes.
    Forever,
    /// Not at all.
    NoWait,
}

/// The settings of a read.
#[derive(Clone, Copy, Debug)]
pub struct ReadOptions {
    pub selection: LinuxClipboardKind,
}

impl ReadOptions {
    /// A read of the `Clipboard` selection.
    pub fn new() -> (r: ReadOptions)
        ensures
            r.selection == LinuxClipboardKind::Clipboard,
    {
        ReadOptions { selection: LinuxClipboardKind::Clipboard }
    }
}

/// The settings of a write.
#[derive(Clone, Copy, Debug)]
pub struct WriteOptions {
    pub wait: WaitConfig,
    pub selection: LinuxClipboardKind,
    pub exclude_from_history: bool,
}

impl WriteOptions {
    /// A write to the `Clipboard` selection that does not wait and may be
    /// kept in histories.
    pub fn new() -> (r: WriteOptions)
        ensures
            r.wait is NoWait,
            r.selection == LinuxClipboardKind::Clipboard,
            !r.exclude_from_history,
    {
        WriteOptions {
            wait: WaitConfig::NoWait,
            selection: LinuxClipboardKind::Clipboard,
            exclude_from_history: false,
        }
    }
}

/// Linux-specific settings of a read.
pub trait GetExtLinux: Sized {
    /// Sets the selection to read from.
    fn clipboard(self, selection: LinuxClipboardKind) -> Self;
}

impl GetExtLinux for ReadOptions {
    fn clipboard(self, selection: LinuxClipboardKind) -> Self {
        ReadOptions { selection }
    }
}

/// Linux-specific settings of a write.
///
/// The data of a selection lives in the process that owns it, and goes away
/// with it. A short-lived writer can therefore wait, and go on serving
/// requests, until its data is replaced.
pub trait SetExtLinux: Sized {
    /// Waits until the data is replaced.
    fn wait(self) -> Self;

    /// Waits until the data is replaced or `deadline` has passed, whichever
    /// comes first. Replaces an earlier `wait`.
    fn wait_until(self, deadline: std::time::Instant) -> Self;

    /// Sets the selection to write to.
    fn clipboard(self, selection: LinuxClipboardKind) -> Self;

    /// Marks the data so that clipboard managers leave it out of their
    /// histories.
    fn exclude_from_history(self) -> Self;
}

impl SetExtLinux for WriteOptions {
    fn wait(self) -> Self {
        WriteOptions { wait: WaitConfig::Forever, ..self }
    }

    fn wait_until(self, deadline: std::time::Instant) -> Self {
        WriteOptions { wait: WaitConfig::Until(deadline), ..self }
    }

    fn clipboard(self, selection: LinuxClipboardKind) -> Self {
        WriteOptions { selection, ..self }
    }

    fn exclude_from_history(self) -> Self {
        WriteOptions { exclude_from_history: true, ..self }
    }
}

/// Linux-specific form of a clear.
pub trait ClearExtLinux {
    /// Clears the given selection.
    fn clipboard(self, selection: LinuxClipboardKind) -> Result<(), Error>;
}

} // verus!
