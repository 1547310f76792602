use arboard::{
    decode_png, decode_text, decode_utf8_text, encode_as_png, html_payloads, image_payloads,
    into_unknown, latin1_to_string, text_formats, text_payloads, Atoms, ClipboardData, Error,
    ImageData,
};

fn atoms() -> Atoms {
    Atoms {
        clipboard: 1,
        primary: 2,
        secondary: 3,
        clipboard_manager: 4,
        save_targets: 5,
        targets: 6,
        atom: 7,
        incr: 8,
        utf8_string: 9,
        utf8_mime_0: 10,
        utf8_mime_1: 11,
        string: 12,
        text: 13,
        text_mime_unknown: 14,
        html: 15,
        uri_list: 16,
        png_mime: 17,
        exclusion_hint: 18,
        transfer_property: 19,
    }
}

#[test]
fn text_payloads_plain_and_sensitive() {
    let a = atoms();
    let p = text_payloads(&a, "h\u{e9}", false);
    assert_eq!(p.len(), 1);
    assert_eq!(p[0].bytes, vec![0x68, 0xc3, 0xa9]);
    assert_eq!(p[0].format, a.utf8_string);
    let p = text_payloads(&a, "pw", true);
    assert_eq!(p.len(), 2);
    assert_eq!(p[1].bytes, b"secret".to_vec());
    assert_eq!(p[1].format, a.exclusion_hint);
}

#[test]
fn html_payloads_order() {
    let a = atoms();
    let p = html_payloads(&a, "<b>x</b>", Some("x"), true);
    let formats: Vec<u32> = p.iter().map(|d| d.format).collect();
    assert_eq!(formats, vec![a.utf8_string, a.html, a.exclusion_hint]);
    assert_eq!(p[0].bytes, b"x".to_vec());
    assert_eq!(p[1].bytes, b"<b>x</b>".to_vec());
    let p = html_payloads(&a, "<i>", None, false);
    assert_eq!(p.len(), 1);
    assert_eq!(p[0].format, a.html);
}

#[test]
fn text_formats_in_preference_order() {
    let a = atoms();
    assert_eq!(text_formats(&a), vec![9, 10, 11, 12, 13, 14]);
}

#[test]
fn latin1_text_is_decoded_per_byte() {
    let a = atoms();
    let d = ClipboardData { bytes: vec![0x63, 0x61, 0x66, 0xe9], format: a.string };
    assert_eq!(decode_text(&a, d).unwrap(), "caf\u{e9}");
    assert_eq!(latin1_to_string(&[0xff, 0x41]), "\u{ff}A");
}

#[test]
fn utf8_text_is_decoded() {
    let a = atoms();
    let d = ClipboardData { bytes: vec![0x63, 0x61, 0x66, 0xc3, 0xa9], format: a.utf8_string };
    assert_eq!(decode_text(&a, d).unwrap(), "caf\u{e9}");
}

#[test]
fn invalid_utf8_is_a_conversion_failure() {
    let a = atoms();
    let d = ClipboardData { bytes: vec![0x63, 0xe9], format: a.text };
    assert!(matches!(decode_text(&a, d), Err(Error::ConversionFailure)));
    assert!(matches!(decode_utf8_text(vec![0xc0, 0x80]), Err(Error::ConversionFailure)));
}

#[test]
fn unknown_error_keeps_description() {
    match into_unknown("broken pipe".to_string()) {
        Error::Unknown { description } => assert_eq!(description, "broken pipe"),
        other => panic!("unexpected {:?}", other),
    }
    match Error::unknown("x") {
        Error::Unknown { description } => assert_eq!(description, "x"),
        other => panic!("unexpected {:?}", other),
    }
}

fn sample_image() -> ImageData {
    let mut bytes = Vec::new();
    for i in 0..6u8 {
        bytes.extend_from_slice(&[i * 10, 255 - i, i, 200]);
    }
    ImageData { width: 3, height: 2, bytes }
}

#[test]
fn png_round_trip() {
    let img = sample_image();
    let png = encode_as_png(&img).unwrap();
    assert_eq!(&png[..8], &[0x89, b'P', b'N', b'G', 0x0d, 0x0a, 0x1a, 0x0a]);
    let back = decode_png(&png).unwrap();
    assert_eq!(back.width, 3);
    assert_eq!(back.height, 2);
    assert_eq!(back.bytes, img.bytes);
}

#[test]
fn empty_or_mismatched_images_are_refused() {
    let empty = ImageData { width: 0, height: 0, bytes: vec![] };
    assert!(matches!(encode_as_png(&empty), Err(Error::ConversionFailure)));
    let zero_width = ImageData { width: 0, height: 1, bytes: vec![1, 2, 3, 4] };
    assert!(matches!(encode_as_png(&zero_width), Err(Error::ConversionFailure)));
    let short = ImageData { width: 2, height: 2, bytes: vec![0; 12] };
    assert!(matches!(encode_as_png(&short), Err(Error::ConversionFailure)));
}

#[test]
fn garbage_is_not_a_png() {
    assert!(matches!(decode_png(b"not a png"), Err(Error::ConversionFailure)));
}

#[test]
fn image_payloads_hold_png() {
    let a = atoms();
    let img = sample_image();
    let p = image_payloads(&a, &img, true).unwrap();
    assert_eq!(p.len(), 2);
    assert_eq!(p[0].format, a.png_mime);
    assert_eq!(p[0].bytes, encode_as_png(&img).unwrap());
    assert_eq!(p[1].format, a.exclusion_hint);
    assert!(matches!(
        image_payloads(&a, &ImageData { width: 1, height: 1, bytes: vec![] }, false),
        Err(Error::ConversionFailure)
    ));
}
