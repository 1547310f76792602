use arboard::{
    answer_request, html_payloads, refuse_request, text_payloads, Atoms, ClipboardData, PropertyWrite,
    SelectionState,
};

fn atoms() -> Atoms {
    Atoms {
        clipboard: 1,
        primary: 2,
        secondary: 3,
        clipboard_manager: 4,
        save_targets: 5,
        targets: 6,
        atom: 7,
        incr: 8,
        utf8_string: 9,
        utf8_mime_0: 10,
        utf8_mime_1: 11,
        string: 12,
        text: 13,
        text_mime_unknown: 14,
        html: 15,
        uri_list: 16,
        png_mime: 17,
        exclusion_hint: 18,
        transfer_property: 19,
    }
}

fn offering(list: Vec<ClipboardData>) -> SelectionState {
    let mut s = SelectionState::new();
    s.write(list);
    s
}

fn targets_of(a: &Atoms, s: &SelectionState) -> Vec<u32> {
    let reply = answer_request(a, s, a.targets, 77);
    assert_eq!(reply.notify_property, 77);
    match reply.write {
        Some(PropertyWrite::Targets(t)) => t,
        other => panic!("unexpected answer {:?}", other),
    }
}

#[test]
fn targets_of_text_include_aliases_and_save() {
    let a = atoms();
    let s = offering(text_payloads(&a, "hi", false));
    assert_eq!(
        targets_of(&a, &s),
        vec![a.utf8_string, a.utf8_mime_0, a.utf8_mime_1, a.targets, a.save_targets]
    );
}

#[test]
fn targets_of_html_with_alternative() {
    let a = atoms();
    let s = offering(html_payloads(&a, "<i>x</i>", Some("x"), false));
    assert_eq!(
        targets_of(&a, &s),
        vec![a.utf8_string, a.utf8_mime_0, a.utf8_mime_1, a.html, a.targets, a.save_targets]
    );
}

#[test]
fn sensitive_data_never_advertises_save() {
    let a = atoms();
    let s = offering(text_payloads(&a, "password", true));
    let t = targets_of(&a, &s);
    assert!(!t.contains(&a.save_targets));
    assert_eq!(
        t,
        vec![a.utf8_string, a.utf8_mime_0, a.utf8_mime_1, a.exclusion_hint, a.targets]
    );
}

#[test]
fn targets_without_data() {
    let a = atoms();
    let s = SelectionState::new();
    assert_eq!(targets_of(&a, &s), vec![a.targets, a.save_targets]);
}

#[test]
fn content_request_is_served() {
    let a = atoms();
    let s = offering(html_payloads(&a, "<p>", Some("p"), false));
    let reply = answer_request(&a, &s, a.html, 42);
    assert_eq!(reply.notify_property, 42);
    match reply.write {
        Some(PropertyWrite::Bytes { format, bytes }) => {
            assert_eq!(format, a.html);
            assert_eq!(bytes, b"<p>".to_vec());
        }
        other => panic!("unexpected answer {:?}", other),
    }
}

#[test]
fn unknown_format_is_refused() {
    let a = atoms();
    let s = offering(text_payloads(&a, "x", false));
    let reply = answer_request(&a, &s, a.png_mime, 42);
    assert!(reply.write.is_none());
    assert_eq!(reply.notify_property, 0);
}

#[test]
fn request_without_data_is_refused() {
    let a = atoms();
    let s = SelectionState::new();
    let reply = answer_request(&a, &s, a.utf8_string, 42);
    assert!(reply.write.is_none());
    assert_eq!(reply.notify_property, 0);
}

#[test]
fn unserved_request_still_gets_a_refusal() {
    let reply = refuse_request();
    assert!(reply.write.is_none());
    assert_eq!(reply.notify_property, 0);
}
