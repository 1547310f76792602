use vstd::prelude::*;
use vstd::utf8::{decode_utf8, encode_utf8, valid_utf8};

use crate::error::Error;

verus! {

/// Relies on `String::from_utf8`: it succeeds exactly on valid UTF-8, and the
/// string then holds the characters that the bytes encode.
#[verifier::external_body]
fn utf8_string(bytes: Vec<u8>) -> (r: Option<String>)
    ensures
        r is Some <==> valid_utf8(bytes@),
        r matches Some(s) ==> s@ == decode_utf8(bytes@),
{
    String::from_utf8(bytes).ok()
}

/// Relies on `String::push`: appends one character.
#[verifier::external_body]
fn push_char(s: &mut String, c: char)
    ensures
        final(s)@ == old(s)@.push(c),
{
    s.push(c)
}

/// The value of an ASCII hexadecimal digit.
pub open spec fn hex_value(c: u8) -> Option<u8> {
    if 48 <= c <= 57 {
        Some((c - 48) as u8)
    } else if 97 <= c <= 102 {
        Some((c - 87) as u8)
    } else if 65 <= c <= 70 {
        Some((c - 55) as u8)
    } else {
        None
    }
}

/// Percent-decoding: each `%` followed by two hexadecimal digits stands for
/// the byte they spell; every other byte stands for itself.
pub open spec fn percent_decoded(b: Seq<u8>) -> Seq<u8>
    decreases b.len(),
{
    if b.len() == 0 {
        seq![]
    } else if b[0] == 37 && b.len() >= 3 && hex_value(b[1]) is Some && hex_value(b[2]) is Some {
        seq![(hex_value(b[1])->0 * 16 + hex_value(b[2])->0) as u8] + percent_decoded(b.skip(3))
    } else {
        seq![b[0]] + percent_decoded(b.skip(1))
    }
}

/// Relies on `percent_encoding::percent_decode`, whose iterator yields the
/// decoded bytes.
#[verifier::external_body]
fn percent_decode_bytes(b: &[u8]) -> (r: Vec<u8>)
    ensures
        r@ == percent_decoded(b@),
{
    percent_encoding::percent_decode(b).collect()
}

/// Text in ISO Latin-1: each byte is the character of that code point.
pub open spec fn latin1(b: Seq<u8>) -> Seq<char> {
    b.map_values(|x: u8| x as char)
}

/// The characters of Latin-1 text.
pub fn latin1_to_string(bytes: &[u8]) -> (r: String)
    ensures
        r@ == latin1(bytes@),
{
    let mut s = String::new();
    let mut i: usize = 0;
    while i < bytes.len()
        invariant
            0 <= i <= bytes@.len(),
            s@ == latin1(bytes@.take(i as int)),
        decreases bytes@.len() - i,
    {
        let c = bytes[i] as char;
        push_char(&mut s, c);
        assert(bytes@.take(i + 1) =~= bytes@.take(i as int).push(bytes@[i as int]));
        assert(s@ =~= latin1(bytes@.take(i + 1)));
        i = i + 1;
    }
    assert(bytes@.take(bytes@.len() as int) =~= bytes@);
    s
}

/// The text in UTF-8 `bytes`, or `ConversionFailure` where they are not UTF-8.
pub fn decode_utf8_text(bytes: Vec<u8>) -> (r: Result<String, Error>)
    ensures
        valid_utf8(bytes@) ==> (r matches Ok(s) && s@ == decode_utf8(bytes@)),
        !valid_utf8(bytes@) ==> r matches Err(Error::ConversionFailure),
{
    match utf8_string(bytes) {
        Some(s) => Ok(s),
        None => Err(Error::ConversionFailure),
    }
}

/// The pieces of `b` between line feeds (10), as `split` gives them: there
/// is always one more piece than there are line feeds.
pub open spec fn pieces(b: Seq<u8>) -> Seq<Seq<u8>>
    decreases b.len(),
{
    if b.len() == 0 {
        seq![seq![]]
    } else if b.last() == 10 {
        pieces(b.drop_last()).push(seq![])
    } else {
        let p = pieces(b.drop_last());
        p.update(p.len() - 1, p.last().push(b.last()))
    }
}

/// A line without the carriage return (13) that may end it.
pub open spec fn strip_cr(line: Seq<u8>) -> Seq<u8> {
    if line.len() > 0 && line.last() == 13 {
        line.drop_last()
    } else {
        line
    }
}

/// Lines without the carriage returns that end them.
pub open spec fn stripped(lines: Seq<Seq<u8>>) -> Seq<Seq<u8>> {
    lines.map_values(|l: Seq<u8>| strip_cr(l))
}

/// The lines of `b`, as `str::lines` gives them: split at line feeds, with a
/// carriage return before a line feed taken away, and no empty line after a
/// final line feed.
pub open spec fn lines_of(b: Seq<u8>) -> Seq<Seq<u8>> {
    let p = pieces(b);
    let ended = stripped(p.drop_last());
    if p.last().len() == 0 {
        ended
    } else {
        ended.push(p.last())
    }
}

/// The prefix that marks a local file in a URI list: `file://`.
pub open spec fn file_scheme() -> Seq<u8> {
    seq![102, 105, 108, 101, 58, 47, 47]
}

/// The path that one line of a URI list names: the percent-decoded rest of
/// a line that starts with `file://`, where that is UTF-8.
pub open spec fn uri_path(line: Seq<u8>) -> Option<Seq<char>> {
    if line.len() >= 7 && line.take(7) == file_scheme() && valid_utf8(
        percent_decoded(line.skip(7)),
    ) {
        Some(decode_utf8(percent_decoded(line.skip(7))))
    } else {
        None
    }
}

/// The paths named by the lines, in order; lines that name none are left out.
pub open spec fn uri_paths(lines: Seq<Seq<u8>>) -> Seq<Seq<char>>
    decreases lines.len(),
{
    if lines.len() == 0 {
        seq![]
    } else {
        let rest = uri_paths(lines.drop_last());
        match uri_path(lines.last()) {
            Some(p) => rest.push(p),
            None => rest,
        }
    }
}

/// The views of a list of strings.
pub open spec fn string_views(v: Seq<String>) -> Seq<Seq<char>> {
    v.map_values(|s: String| s@)
}

/// The views of a list of byte vectors.
pub open spec fn byte_views(v: Seq<Vec<u8>>) -> Seq<Seq<u8>> {
    v.map_values(|s: Vec<u8>| s@)
}

/// `b[start..end]` as a vector.
fn copy_range(b: &[u8], start: usize, end: usize) -> (r: Vec<u8>)
    requires
        start <= end <= b@.len(),
    ensures
        r@ == b@.subrange(start as int, end as int),
{
    let mut r: Vec<u8> = Vec::new();
    let mut i = start;
    while i < end
        invariant
            start <= i <= end <= b@.len(),
            r@ == b@.subrange(start as int, i as int),
        decreases end - i,
    {
        r.push(b[i]);
        assert(r@ =~= b@.subrange(start as int, i + 1));
        i = i + 1;
    }
    r
}

/// `b[start..end]` without a carriage return at its end.
fn copy_line(b: &[u8], start: usize, end: usize) -> (r: Vec<u8>)
    requires
        start <= end <= b@.len(),
    ensures
        r@ == strip_cr(b@.subrange(start as int, end as int)),
{
    if end > start && b[end - 1] == 13 {
        assert(b@.subrange(start as int, end as int).drop_last() =~= b@.subrange(
            start as int,
            end - 1,
        ));
        copy_range(b, start, end - 1)
    } else {
        copy_range(b, start, end)
    }
}

/// The lines of `b`, as `str::lines` gives them.
pub fn split_lines(b: &[u8]) -> (r: Vec<Vec<u8>>)
    ensures
        byte_views(r@) == lines_of(b@),
{
    let mut done: Vec<Vec<u8>> = Vec::new();
    let ghost mut ended: Seq<Seq<u8>> = seq![];
    let mut start: usize = 0;
    let mut i: usize = 0;
    assert(b@.take(0) =~= Seq::<u8>::empty());
    assert(b@.subrange(0, 0) =~= Seq::<u8>::empty());
    while i < b.len()
        invariant
            0 <= start <= i <= b@.len(),
            pieces(b@.take(i as int)) == ended.push(b@.subrange(start as int, i as int)),
            byte_views(done@) == stripped(ended),
        decreases b@.len() - i,
    {
        assert(b@.take(i + 1).drop_last() =~= b@.take(i as int));
        assert(b@.take(i + 1).last() == b@[i as int]);
        let ghost current = b@.subrange(start as int, i as int);
        if b[i] == 10 {
            let line = copy_line(b, start, i);
            let ghost before = done@;
            let ghost ended_before = ended;
            done.push(line);
            proof {
                ended = ended.push(current);
                assert(before.len() == ended_before.len()) by {
                    assert(byte_views(before).len() == stripped(ended_before).len());
                }
                assert forall|j: int| 0 <= j < done@.len() implies #[trigger] byte_views(done@)[j]
                    == stripped(ended)[j] by {
                    assert(done@[j] == before.push(line)[j]);
                    if j < before.len() {
                        assert(byte_views(before)[j] == stripped(ended_before)[j]);
                        assert(ended[j] == ended_before[j]);
                    } else {
                        assert(done@[j] == line);
                        assert(ended[j] == current);
                    }
                }
            }
            start = i + 1;
            assert(b@.subrange(start as int, i + 1) =~= Seq::<u8>::empty());
            assert(byte_views(done@) =~= stripped(ended));
        } else {
            assert(b@.subrange(start as int, i + 1) =~= current.push(b@[i as int]));
            assert(ended.push(current).update(ended.len() as int, current.push(b@[i as int]))
                =~= ended.push(current.push(b@[i as int])));
        }
        i = i + 1;
    }
    assert(b@.take(b@.len() as int) =~= b@);
    let ghost p = pieces(b@);
    assert(p.drop_last() =~= ended);
    if start < b.len() {
        let line = copy_range(b, start, b.len());
        done.push(line);
        assert(byte_views(done@) =~= lines_of(b@));
    } else {
        assert(byte_views(done@) =~= lines_of(b@));
    }
    done
}

/// Whether `line` starts with `file://`.
fn has_file_scheme(line: &Vec<u8>) -> (r: bool)
    ensures
        r == (line@.len() >= 7 && line@.take(7) == file_scheme()),
{
    if line.len() >= 7 && line[0] == 102 && line[1] == 105 && line[2] == 108 && line[3] == 101
        && line[4] == 58 && line[5] == 47 && line[6] == 47 {
        assert(line@.take(7) =~= file_scheme());
        true
    } else {
        assert(line@.len() >= 7 ==> line@.take(7)[0] == line@[0]);
        assert(line@.len() >= 7 ==> line@.take(7)[6] == line@[6]);
        false
    }
}

/// The paths of the local files in a URI list (`text/uri-list`): one per line
/// that starts with `file://`, percent-decoded; lines that name no local file,
/// or whose decoded bytes are not UTF-8, are left out.
pub fn paths_from_uri_list(uri_list: &str) -> (r: Vec<String>)
    ensures
        string_views(r@) == uri_paths(lines_of(encode_utf8(uri_list@))),
{
    let lines = split_lines(uri_list.as_bytes());
    let ghost all = byte_views(lines@);
    let mut out: Vec<String> = Vec::new();
    let mut k: usize = 0;
    assert(all.take(0) =~= Seq::<Seq<u8>>::empty());
    assert(string_views(out@) =~= Seq::<Seq<char>>::empty());
    while k < lines.len()
        invariant
            0 <= k <= lines@.len(),
            all == byte_views(lines@),
            all == lines_of(encode_utf8(uri_list@)),
            string_views(out@) == uri_paths(all.take(k as int)),
        decreases lines@.len() - k,
    {
        let line = &lines[k];
        assert(all.take(k + 1).drop_last() =~= all.take(k as int));
        assert(all.take(k + 1).last() == line@);
        if has_file_scheme(line) {
            let rest = copy_range(line.as_slice(), 7, line.len());
            assert(rest@ =~= line@.skip(7));
            let decoded = percent_decode_bytes(rest.as_slice());
            match utf8_string(decoded) {
                Some(path) => {
                    out.push(path);
                    assert(string_views(out@) =~= uri_paths(all.take(k + 1)));
                },
                None => {},
            }
        }
        k = k + 1;
    }
    assert(all.take(lines@.len() as int) =~= all);
    out
}

/// The paths in a URI list received as bytes; `ConversionFailure` where the
/// bytes are not UTF-8.
pub fn decode_file_list(bytes: Vec<u8>) -> (r: Result<Vec<String>, Error>)
    ensures
        valid_utf8(bytes@) ==> (r matches Ok(v) && string_views(v@) == uri_paths(
            lines_of(bytes@),
        )),
        !valid_utf8(bytes@) ==> r matches Err(Error::ConversionFailure),
{
    let ghost b = bytes@;
    match decode_utf8_text(bytes) {
        Ok(text) => {
            proof {
                vstd::utf8::decode_utf8_encode_utf8(b);
            }
            Ok(paths_from_uri_list(text.as_str()))
        },
        Err(e) => Err(e),
    }
}

} // verus!
