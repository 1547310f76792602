use arboard::{
    after_attempt, ensure_serving, is_last_handle, Atoms, ClipboardData, Error, SelectionState,
    MIN_OWNERS,
};

fn atoms() -> Atoms {
    Atoms {
        clipboard: 1,
        primary: 2,
        secondary: 3,
        clipboard_manager: 4,
        save_targets: 5,
        targets: 6,
        atom: 7,
        incr: 8,
        utf8_string: 9,
        utf8_mime_0: 10,
        utf8_mime_1: 11,
        string: 12,
        text: 13,
        text_mime_unknown: 14,
        html: 15,
        uri_list: 16,
        png_mime: 17,
        exclusion_hint: 18,
        transfer_property: 19,
    }
}

fn data(bytes: &[u8], format: u32) -> ClipboardData {
    ClipboardData { bytes: bytes.to_vec(), format }
}

#[test]
fn new_selection_offers_nothing() {
    let s = SelectionState::new();
    assert!(!s.is_offered());
    assert!(s.payloads().is_none());
    assert!(matches!(s.read_local(&[9, 15]), Err(Error::ContentNotAvailable)));
}

#[test]
fn write_then_read_round_trip() {
    let a = atoms();
    for format in [a.utf8_string, a.html, a.png_mime, a.uri_list] {
        let mut s = SelectionState::new();
        s.write(vec![data(b"payload \x00\xff", format)]);
        let got = s.read_local(&[format]).unwrap();
        assert_eq!(got.bytes, b"payload \x00\xff".to_vec());
        assert_eq!(got.format, format);
    }
}

#[test]
fn read_of_unoffered_format_is_not_available() {
    let mut s = SelectionState::new();
    s.write(vec![data(b"x", 9)]);
    assert!(matches!(s.read_local(&[15, 17]), Err(Error::ContentNotAvailable)));
    assert!(matches!(s.read_local(&[]), Err(Error::ContentNotAvailable)));
}

#[test]
fn read_follows_reader_preference() {
    let a = atoms();
    let mut s = SelectionState::new();
    s.write(vec![data(b"plain", a.utf8_string), data(b"<b>html</b>", a.html)]);
    let r = s.read_local(&[a.utf8_string, a.html]).unwrap();
    assert_eq!(r.bytes, b"plain".to_vec());
    let r = s.read_local(&[a.html, a.utf8_string]).unwrap();
    assert_eq!(r.bytes, b"<b>html</b>".to_vec());
    assert_eq!(r.format, a.html);
}

#[test]
fn read_takes_first_payload_of_a_format() {
    let mut s = SelectionState::new();
    s.write(vec![data(b"one", 9), data(b"two", 9)]);
    assert_eq!(s.read_local(&[9]).unwrap().bytes, b"one".to_vec());
}

#[test]
fn clear_withdraws_data() {
    let mut s = SelectionState::new();
    s.write(vec![data(b"x", 9)]);
    assert!(s.is_offered());
    s.clear();
    assert!(!s.is_offered());
    assert!(matches!(s.read_local(&[9]), Err(Error::ContentNotAvailable)));
}

#[test]
fn write_replaces_whole_set() {
    let mut s = SelectionState::new();
    s.write(vec![data(b"a", 9), data(b"b", 15)]);
    s.write(vec![data(b"c", 17)]);
    assert!(matches!(s.read_local(&[9, 15]), Err(Error::ContentNotAvailable)));
    assert_eq!(s.payloads().unwrap().len(), 1);
}

#[test]
fn every_change_moves_the_generation() {
    let mut s = SelectionState::new();
    let g0 = s.generation();
    assert!(!s.changed_since(g0));
    let _ = s.read_local(&[9]);
    assert!(!s.changed_since(g0));
    s.write(vec![data(b"first", 9)]);
    assert!(s.changed_since(g0));
    let g1 = s.generation();
    s.write(vec![data(b"second", 9)]);
    assert!(s.changed_since(g1));
    let g2 = s.generation();
    s.clear();
    assert!(s.changed_since(g2));
}

#[test]
fn write_after_service_stopped_fails() {
    assert!(matches!(ensure_serving(true), Err(Error::Unknown { .. })));
    assert!(ensure_serving(false).is_ok());
}

#[test]
fn last_handle_is_detected_at_three_holders() {
    assert_eq!(MIN_OWNERS, 3);
    assert!(is_last_handle(3));
    assert!(!is_last_handle(4));
    assert!(!is_last_handle(2));
}

#[test]
fn attempts_skip_unavailable_formats() {
    assert!(after_attempt(9, Err(Error::ContentNotAvailable)).is_none());
    let ok = after_attempt(9, Ok(vec![1, 2])).unwrap().unwrap();
    assert_eq!(ok.bytes, vec![1, 2]);
    assert_eq!(ok.format, 9);
    assert!(matches!(after_attempt(9, Err(Error::ConversionFailure)), Some(Err(Error::ConversionFailure))));
}
