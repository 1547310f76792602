use std::time::{Duration, Instant};

use arboard::{GetExtLinux, LinuxClipboardKind, ReadOptions, SetExtLinux, WaitConfig, WriteOptions};

#[test]
fn read_options_default_and_choice() {
    let g = ReadOptions::new();
    assert_eq!(g.selection, LinuxClipboardKind::Clipboard);
    let g = g.clipboard(LinuxClipboardKind::Secondary);
    assert_eq!(g.selection, LinuxClipboardKind::Secondary);
}

#[test]
fn write_options_builders() {
    let s = WriteOptions::new();
    assert!(matches!(s.wait, WaitConfig::NoWait));
    assert!(!s.exclude_from_history);
    let s = s.clipboard(LinuxClipboardKind::Primary).wait().exclude_from_history();
    assert_eq!(s.selection, LinuxClipboardKind::Primary);
    assert!(matches!(s.wait, WaitConfig::Forever));
    assert!(s.exclude_from_history);
    let deadline = Instant::now() + Duration::from_millis(50);
    let s = s.wait_until(deadline);
    match s.wait {
        WaitConfig::Until(d) => assert_eq!(d, deadline),
        other => panic!("unexpected {:?}", other),
    }
}
