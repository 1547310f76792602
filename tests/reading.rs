use arboard::{
    Atoms, Error, Fetch, ReadEvent, ReadSession, ReadStep, Stage, LONG_TIMEOUT_MS,
    SHORT_TIMEOUT_MS,
};

fn atoms() -> Atoms {
    Atoms {
        clipboard: 1,
        primary: 2,
        secondary: 3,
        clipboard_manager: 4,
        save_targets: 5,
        targets: 6,
        atom: 7,
        incr: 8,
        utf8_string: 9,
        utf8_mime_0: 10,
        utf8_mime_1: 11,
        string: 12,
        text: 13,
        text_mime_unknown: 14,
        html: 15,
        uri_list: 16,
        png_mime: 17,
        exclusion_hint: 18,
        transfer_property: 19,
    }
}

fn answered(a: &Atoms, target: u32) -> ReadEvent {
    ReadEvent::SelectionNotify {
        requestor: 500,
        selection: a.clipboard,
        target,
        property: a.transfer_property,
    }
}

fn new_value(a: &Atoms) -> ReadEvent {
    ReadEvent::PropertyNotify { window: 500, atom: a.transfer_property, new_value: true }
}

fn expect_fetch(step: ReadStep) -> Fetch {
    match step {
        ReadStep::Fetch(f) => f,
        other => panic!("expected a fetch, got {:?}", other),
    }
}

#[test]
fn direct_answer_returns_data() {
    let a = atoms();
    let mut s = ReadSession::new(a.utf8_string, 0);
    let f = expect_fetch(s.on_event(&a, Some(answered(&a, a.utf8_string)), 5));
    assert_eq!(
        f,
        Fetch { stage: Stage::Answer, window: 500, property: a.transfer_property, format: a.utf8_string }
    );
    match s.on_reply(&a, &f, a.utf8_string, b"hello".to_vec(), 6) {
        ReadStep::Done(d) => assert_eq!(d, b"hello".to_vec()),
        other => panic!("unexpected {:?}", other),
    }
}

#[test]
fn segmented_transfer_is_reassembled() {
    let a = atoms();
    let mut s = ReadSession::new(a.png_mime, 100);
    let f = expect_fetch(s.on_event(&a, Some(answered(&a, a.png_mime)), 101));
    let ack = expect_fetch(s.on_reply(&a, &f, a.incr, vec![0, 0, 1, 0], 102));
    assert_eq!(ack.stage, Stage::IncrAck);
    assert_eq!(ack.format, a.incr);
    assert!(matches!(s.on_reply(&a, &ack, a.incr, vec![], 103), ReadStep::Wait));
    let chunks: [&[u8]; 4] = [b"abc", b"de", b"f", b""];
    let mut now = 104;
    for (i, chunk) in chunks.iter().enumerate() {
        let seg = expect_fetch(s.on_event(&a, Some(new_value(&a)), now));
        assert_eq!(seg.stage, Stage::Segment);
        let step = s.on_reply(&a, &seg, a.png_mime, chunk.to_vec(), now);
        if i + 1 < chunks.len() {
            assert!(matches!(step, ReadStep::Wait));
        } else {
            match step {
                ReadStep::Done(d) => assert_eq!(d, b"abcdef".to_vec()),
                other => panic!("unexpected {:?}", other),
            }
        }
        now += 1;
    }
}

#[test]
fn property_change_before_segments_is_ignored() {
    let a = atoms();
    let mut s = ReadSession::new(a.html, 0);
    assert!(matches!(s.on_event(&a, Some(new_value(&a)), 1), ReadStep::Wait));
    let other_prop = ReadEvent::PropertyNotify { window: 500, atom: 999, new_value: true };
    assert!(matches!(s.on_event(&a, Some(other_prop), 1), ReadStep::Wait));
    assert!(matches!(s.on_event(&a, Some(ReadEvent::Other), 1), ReadStep::Wait));
}

#[test]
fn declined_conversion_is_not_available() {
    let a = atoms();
    let mut s = ReadSession::new(a.html, 0);
    let declined = ReadEvent::SelectionNotify {
        requestor: 500,
        selection: a.clipboard,
        target: a.html,
        property: 0,
    };
    assert!(matches!(s.on_event(&a, Some(declined), 1), ReadStep::Fail(Error::ContentNotAvailable)));
    let wrong_target = answered(&a, a.png_mime);
    assert!(matches!(
        s.on_event(&a, Some(wrong_target), 1),
        ReadStep::Fail(Error::ContentNotAvailable)
    ));
}

#[test]
fn answer_for_unknown_selection_is_ignored() {
    let a = atoms();
    let mut s = ReadSession::new(a.html, 0);
    let ev = ReadEvent::SelectionNotify {
        requestor: 500,
        selection: 999,
        target: a.html,
        property: a.transfer_property,
    };
    assert!(matches!(s.on_event(&a, Some(ev), 1), ReadStep::Wait));
}

#[test]
fn deadline_ends_the_attempt() {
    let a = atoms();
    let mut s = ReadSession::new(a.utf8_string, 1000);
    assert!(!s.is_expired(1000 + LONG_TIMEOUT_MS - 1));
    assert!(matches!(s.on_event(&a, None, 1000 + LONG_TIMEOUT_MS - 1), ReadStep::Wait));
    assert!(s.is_expired(1000 + LONG_TIMEOUT_MS));
    assert!(matches!(
        s.on_event(&a, None, 1000 + LONG_TIMEOUT_MS),
        ReadStep::Fail(Error::ContentNotAvailable)
    ));
    assert!(matches!(
        s.on_event(&a, Some(answered(&a, a.utf8_string)), 1000 + LONG_TIMEOUT_MS + 5),
        ReadStep::Fail(Error::ContentNotAvailable)
    ));
}

#[test]
fn deadline_saturates() {
    let a = atoms();
    let mut s = ReadSession::new(a.utf8_string, u64::MAX - 1);
    assert!(!s.is_expired(u64::MAX - 1));
    assert!(matches!(s.on_event(&a, None, u64::MAX - 1), ReadStep::Wait));
}

#[test]
fn segments_shorten_the_deadline() {
    let a = atoms();
    let mut s = ReadSession::new(a.png_mime, 0);
    let f = expect_fetch(s.on_event(&a, Some(answered(&a, a.png_mime)), 1));
    let ack = expect_fetch(s.on_reply(&a, &f, a.incr, vec![], 1));
    assert!(!s.is_expired(LONG_TIMEOUT_MS - 1));
    assert!(matches!(s.on_reply(&a, &ack, a.incr, vec![], 2), ReadStep::Wait));
    assert!(!s.is_expired(2 + SHORT_TIMEOUT_MS - 1));
    assert!(s.is_expired(2 + SHORT_TIMEOUT_MS));
    let seg = expect_fetch(s.on_event(&a, Some(new_value(&a)), 5));
    assert!(matches!(s.on_reply(&a, &seg, a.png_mime, vec![1], 7), ReadStep::Wait));
    assert!(!s.is_expired(7 + SHORT_TIMEOUT_MS - 1));
    assert!(s.is_expired(7 + SHORT_TIMEOUT_MS));
}

#[test]
fn incr_without_segments_times_out_quickly() {
    let a = atoms();
    let mut s = ReadSession::new(a.png_mime, 1000);
    let f = expect_fetch(s.on_event(&a, Some(answered(&a, a.png_mime)), 1001));
    let ack = expect_fetch(s.on_reply(&a, &f, a.incr, vec![], 1001));
    assert!(matches!(s.on_reply(&a, &ack, a.incr, vec![], 1002), ReadStep::Wait));
    assert!(matches!(
        s.on_event(&a, None, 1002 + SHORT_TIMEOUT_MS),
        ReadStep::Fail(Error::ContentNotAvailable)
    ));
}

#[test]
fn unexpected_reply_type_is_an_error() {
    let a = atoms();
    let mut s = ReadSession::new(a.html, 0);
    let f = expect_fetch(s.on_event(&a, Some(answered(&a, a.html)), 1));
    assert!(matches!(s.on_reply(&a, &f, a.png_mime, vec![1], 1), ReadStep::Fail(Error::Unknown { .. })));
}
