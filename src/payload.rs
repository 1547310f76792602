use vstd::prelude::*;
use vstd::utf8::{decode_utf8, encode_utf8, valid_utf8};

use crate::atoms::Atoms;
use crate::bitmap::{encode_as_png, is_encodable, png_encoding, ImageData};
use crate::error::Error;
use crate::store::{payload_views, ClipboardData, PayloadView};
use crate::text::{decode_utf8_text, latin1, latin1_to_string};

verus! {

/// The value stored under the exclusion marker: `secret`.
pub open spec fn exclusion_bytes() -> Seq<u8> {
    seq![115, 101, 99, 114, 101, 116]
}

/// The payload that marks data as sensitive.
pub open spec fn exclusion_payload(atoms: Atoms) -> PayloadView {
    PayloadView { bytes: exclusion_bytes(), format: atoms.exclusion_hint }
}

/// `ps`, followed by the exclusion marker when `exclude` holds.
pub open spec fn with_exclusion(atoms: Atoms, ps: Seq<PayloadView>, exclude: bool) -> Seq<
    PayloadView,
> {
    if exclude {
        ps.push(exclusion_payload(atoms))
    } else {
        ps
    }
}

/// The payload of `text` in UTF-8.
pub open spec fn text_payload(atoms: Atoms, text: Seq<char>) -> PayloadView {
    PayloadView { bytes: encode_utf8(text), format: atoms.utf8_string }
}

/// The payloads offered for `html`: the plain alternative first, if there is
/// one, then the HTML.
pub open spec fn html_offer(atoms: Atoms, html: Seq<char>, alt: Option<Seq<char>>) -> Seq<
    PayloadView,
> {
    let h = PayloadView { bytes: encode_utf8(html), format: atoms.html };
    match alt {
        Some(a) => seq![text_payload(atoms, a), h],
        None => seq![h],
    }
}

/// The characters of the plain alternative, if there is one.
pub open spec fn alt_view(alt: Option<&str>) -> Option<Seq<char>> {
    match alt {
        Some(a) => Some(a@),
        None => None,
    }
}

/// Appends the exclusion marker to `data` when `exclude` holds.
pub fn add_clipboard_exclusions(atoms: &Atoms, exclude: bool, data: &mut Vec<ClipboardData>)
    ensures
        payload_views(final(data)@) == with_exclusion(*atoms, payload_views(old(data)@), exclude),
{
    if exclude {
        let bytes: Vec<u8> = vec![115, 101, 99, 114, 101, 116];
        assert(bytes@ =~= exclusion_bytes());
        data.push(ClipboardData { bytes, format: atoms.exclusion_hint });
        assert(payload_views(data@) =~= payload_views(old(data)@).push(exclusion_payload(*atoms)));
    }
}

/// The UTF-8 bytes of `s`.
fn utf8_bytes(s: &str) -> (r: Vec<u8>)
    ensures
        r@ == encode_utf8(s@),
{
    vstd::slice::slice_to_vec(s.as_bytes())
}

/// The payloads written for `text`.
pub fn text_payloads(atoms: &Atoms, text: &str, exclude: bool) -> (r: Vec<ClipboardData>)
    ensures
        payload_views(r@) == with_exclusion(*atoms, seq![text_payload(*atoms, text@)], exclude),
{
    let mut data: Vec<ClipboardData> = Vec::new();
    data.push(ClipboardData { bytes: utf8_bytes(text), format: atoms.utf8_string });
    assert(payload_views(data@) =~= seq![text_payload(*atoms, text@)]);
    add_clipboard_exclusions(atoms, exclude, &mut data);
    data
}

/// The payloads written for `html` with the plain alternative `alt`.
pub fn html_payloads(atoms: &Atoms, html: &str, alt: Option<&str>, exclude: bool) -> (r: Vec<
    ClipboardData,
>)
    ensures
        payload_views(r@) == with_exclusion(
            *atoms,
            html_offer(*atoms, html@, alt_view(alt)),
            exclude,
        ),
{
    let mut data: Vec<ClipboardData> = Vec::new();
    if let Some(alt_text) = alt {
        data.push(ClipboardData { bytes: utf8_bytes(alt_text), format: atoms.utf8_string });
    }
    data.push(ClipboardData { bytes: utf8_bytes(html), format: atoms.html });
    assert(payload_views(data@) =~= html_offer(*atoms, html@, alt_view(alt)));
    add_clipboard_exclusions(atoms, exclude, &mut data);
    data
}

/// The payloads written for `image`, encoded as PNG.
pub fn image_payloads(atoms: &Atoms, image: &ImageData, exclude: bool) -> (r: Result<
    Vec<ClipboardData>,
    Error,
>)
    ensures
        !is_encodable(image) ==> r matches Err(Error::ConversionFailure),
        is_encodable(image) ==> match png_encoding(
            image.bytes@,
            image.width as u32,
            image.height as u32,
        ) {
            Some(png) => r matches Ok(v) && payload_views(v@) == with_exclusion(
                *atoms,
                seq![PayloadView { bytes: png, format: atoms.png_mime }],
                exclude,
            ),
            None => r matches Err(Error::ConversionFailure),
        },
{
    let encoded = encode_as_png(image)?;
    let mut data: Vec<ClipboardData> = Vec::new();
    data.push(ClipboardData { bytes: encoded, format: atoms.png_mime });
    assert(payload_views(data@) =~= seq![PayloadView { bytes: data@[0].bytes@, format: atoms.png_mime }]);
    add_clipboard_exclusions(atoms, exclude, &mut data);
    Ok(data)
}

/// The formats accepted when reading text, most preferred first.
pub open spec fn text_formats_spec(atoms: Atoms) -> Seq<u32> {
    seq![
        atoms.utf8_string,
        atoms.utf8_mime_0,
        atoms.utf8_mime_1,
        atoms.string,
        atoms.text,
        atoms.text_mime_unknown,
    ]
}

/// The formats accepted when reading text, most preferred first.
pub fn text_formats(atoms: &Atoms) -> (r: Vec<u32>)
    ensures
        r@ == text_formats_spec(*atoms),
{
    let r: Vec<u32> = vec![
        atoms.utf8_string,
        atoms.utf8_mime_0,
        atoms.utf8_mime_1,
        atoms.string,
        atoms.text,
        atoms.text_mime_unknown,
    ];
    assert(r@ =~= text_formats_spec(*atoms));
    r
}

/// The text in a payload that was read as text: Latin-1 for `STRING`,
/// UTF-8 for every other format.
pub fn decode_text(atoms: &Atoms, data: ClipboardData) -> (r: Result<String, Error>)
    ensures
        data.format == atoms.string ==> (r matches Ok(s) && s@ == latin1(data.bytes@)),
        data.format != atoms.string && valid_utf8(data.bytes@) ==> (r matches Ok(s) && s@
            == decode_utf8(data.bytes@)),
        data.format != atoms.string && !valid_utf8(data.bytes@) ==> r matches Err(
            Error::ConversionFailure,
        ),
{
    if data.format == atoms.string {
        Ok(latin1_to_string(data.bytes.as_slice()))
    } else {
        decode_utf8_text(data.bytes)
    }
}

} // verus!
