//! The managed block of the system `hosts` file: replacing and removing the
//! lines between `# --- NAME BEGIN ---` and `# --- NAME END ---`, keeping the
//! file's encoding and line endings.
use vstd::prelude::*;

use crate::text::{append_chars, chars_of, contains, contains_chars, copy, ends_with, ends_with_chars, eq_chars, join, join_chars, lines_chars, lines_of, replace_all, replace_chars, string_from, trim, trim_end, trim_end_vec, trim_start, trim_start_vec, trim_vec, views};
use vstd::utf8::{decode_utf8, valid_utf8};

verus! {

// ------------------------------------------------------------------------
// Markers and line endings
// ------------------------------------------------------------------------

/// `# --- NAME BEGIN ---`.
pub open spec fn spec_begin_marker(m: Seq<char>) -> Seq<char> {
    "# --- "@ + m + " BEGIN ---"@
}

/// `# --- NAME END ---`.
pub open spec fn spec_end_marker(m: Seq<char>) -> Seq<char> {
    "# --- "@ + m + " END ---"@
}

fn concat3(a: &str, m: &str, b: &str) -> (r: Vec<char>)
    ensures
        r@ == a@ + m@ + b@,
{
    let mut r = chars_of(a);
    append_chars(&mut r, &chars_of(m));
    append_chars(&mut r, &chars_of(b));
    r
}

/// The line that opens the block named `marker`.
pub fn begin_marker(marker: &str) -> (r: String)
    ensures
        r@ == spec_begin_marker(marker@),
{
    string_from(&concat3("# --- ", marker, " BEGIN ---"))
}

/// The line that closes the block named `marker`.
pub fn end_marker(marker: &str) -> (r: String)
    ensures
        r@ == spec_end_marker(marker@),
{
    string_from(&concat3("# --- ", marker, " END ---"))
}

pub open spec fn crlf() -> Seq<char> {
    seq!['\r', '\n']
}

pub open spec fn lf() -> Seq<char> {
    seq!['\n']
}

/// The line ending of a text: CRLF when it contains one, LF otherwise.
pub fn detect_eol(s: &str) -> (r: String)
    ensures
        r@ == (if contains(s@, crlf()) { crlf() } else { lf() }),
{
    let v = chars_of(s);
    let pat: [char; 2] = ['\r', '\n'];
    assert(pat@ =~= crlf());
    if contains_chars(&v, &pat) {
        string_from(&pat)
    } else {
        let nl: [char; 1] = ['\n'];
        assert(nl@ =~= lf());
        string_from(&nl)
    }
}

/// All line endings (CRLF, lone CR, LF) made `eol`.
pub open spec fn spec_normalize_eol(s: Seq<char>, eol: Seq<char>) -> Seq<char> {
    let tmp = replace_all(replace_all(s, crlf(), lf()), seq!['\r'], lf());
    if eol == lf() { tmp } else { replace_all(tmp, lf(), eol) }
}

/// The text with every line ending (CRLF, lone CR or LF) written as `eol`.
pub fn normalize_eol(s: &str, eol: &str) -> (r: String)
    ensures
        r@ == spec_normalize_eol(s@, eol@),
{
    let pat: [char; 2] = ['\r', '\n'];
    let cr: [char; 1] = ['\r'];
    let nl: [char; 1] = ['\n'];
    assert(pat@ =~= crlf());
    assert(cr@ =~= seq!['\r']);
    assert(nl@ =~= lf());
    let a = replace_chars(&chars_of(s), &pat, &nl);
    let tmp = replace_chars(&a, &cr, &nl);
    let e = chars_of(eol);
    if eq_chars(&e, &nl) {
        string_from(&tmp)
    } else {
        string_from(&replace_chars(&tmp, &nl, &e))
    }
}

// ------------------------------------------------------------------------
// Block editing
// ------------------------------------------------------------------------

/// Remover state: kept lines, inside the block, a block was seen.
pub type RemoveState = (Seq<Seq<char>>, bool, bool);

pub open spec fn remove_step(st: RemoveState, line: Seq<char>, begin: Seq<char>, end: Seq<char>) -> RemoveState {
    let (out, in_block, removed) = st;
    let t = trim(line);
    if t == begin {
        (out, true, true)
    } else if in_block {
        (out, t != end, removed)
    } else {
        (out.push(line), false, removed)
    }
}

pub open spec fn remove_acc(ls: Seq<Seq<char>>, begin: Seq<char>, end: Seq<char>) -> RemoveState
    decreases ls.len(),
{
    if ls.len() == 0 {
        (Seq::empty(), false, false)
    } else {
        remove_step(remove_acc(ls.drop_last(), begin, end), ls.last(), begin, end)
    }
}

/// The text without its blocks named `marker` (each from a line trimming to
/// the begin marker through the next line trimming to the end marker, or to
/// the end of the text), and whether a block was found.
pub open spec fn spec_remove_block(text: Seq<char>, marker: Seq<char>, eol: Seq<char>) -> (Seq<char>, bool) {
    let (out, _in_block, removed) = remove_acc(lines_of(text), spec_begin_marker(marker), spec_end_marker(marker));
    let joined = join(out, eol);
    (if joined.len() > 0 && !ends_with(joined, eol) { joined + eol } else { joined }, removed)
}

/// Removes the block named `marker`; returns the text joined with `eol` and
/// whether a block was found.
pub fn remove_hosts_block(hosts_text: &str, marker: &str, eol: &str) -> (r: (String, bool))
    ensures
        (r.0@, r.1) == spec_remove_block(hosts_text@, marker@, eol@),
{
    let begin = chars_of(begin_marker(marker).as_str());
    let end = chars_of(end_marker(marker).as_str());
    let tv = chars_of(hosts_text);
    let ls = lines_chars(&tv);
    let ghost all = views(ls@);
    let mut out: Vec<Vec<char>> = Vec::new();
    let mut in_block = false;
    let mut removed = false;
    let mut i: usize = 0;
    while i < ls.len()
        invariant
            i <= ls.len(),
            all == views(ls@),
            all == lines_of(hosts_text@),
            begin@ == spec_begin_marker(marker@),
            end@ == spec_end_marker(marker@),
            (views(out@), in_block, removed) == remove_acc(all.take(i as int), begin@, end@),
        decreases ls.len() - i,
    {
        assert(all.take(i + 1).drop_last() =~= all.take(i as int));
        assert(all.take(i + 1).last() == ls@[i as int]@);
        let t = trim_vec(&ls[i]);
        if eq_chars(&t, &begin) {
            in_block = true;
            removed = true;
        } else if in_block {
            if eq_chars(&t, &end) {
                in_block = false;
            }
        } else {
            let ghost before = views(out@);
            out.push(copy(&ls[i]));
            assert(views(out@) =~= before.push(all[i as int]));
        }
        i = i + 1;
    }
    assert(all.take(ls.len() as int) =~= all);
    let e = chars_of(eol);
    let mut joined = join_chars(&out, &e);
    if joined.len() > 0 && !ends_with_chars(&joined, &e) {
        append_chars(&mut joined, &e);
    }
    (string_from(&joined), removed)
}

/// A source line the block skips: a comment, starting with `#` (or `;` when
/// `semicolon_comments`) after leading whitespace.
pub open spec fn is_source_comment(t: Seq<char>, semicolon_comments: bool) -> bool {
    let s = trim_start(t);
    s.len() > 0 && (s[0] == '#' || (semicolon_comments && s[0] == ';'))
}

/// The lines of the source as they go into the block: trailing whitespace
/// removed, blank lines kept empty, comment lines dropped.
pub open spec fn spec_source_lines(ls: Seq<Seq<char>>, semicolon_comments: bool) -> Seq<Seq<char>>
    decreases ls.len(),
{
    if ls.len() == 0 {
        Seq::empty()
    } else {
        let prev = spec_source_lines(ls.drop_last(), semicolon_comments);
        let t = trim_end(ls.last());
        if t.len() == 0 {
            prev.push(Seq::empty())
        } else if is_source_comment(t, semicolon_comments) {
            prev
        } else {
            prev.push(t)
        }
    }
}

/// The lines of a source text as they go into the block: trailing whitespace
/// removed, blank lines kept (empty), comment lines (`#`, and `;` when
/// `semicolon_comments`) dropped.
pub fn normalize_source_lines(source_text: &str, semicolon_comments: bool) -> (r: Vec<Vec<char>>)
    ensures
        views(r@) == spec_source_lines(lines_of(source_text@), semicolon_comments),
{
    let tv = chars_of(source_text);
    let ls = lines_chars(&tv);
    let ghost all = views(ls@);
    let mut out: Vec<Vec<char>> = Vec::new();
    let mut i: usize = 0;
    while i < ls.len()
        invariant
            i <= ls.len(),
            all == views(ls@),
            all == lines_of(source_text@),
            views(out@) == spec_source_lines(all.take(i as int), semicolon_comments),
        decreases ls.len() - i,
    {
        assert(all.take(i + 1).drop_last() =~= all.take(i as int));
        assert(all.take(i + 1).last() == ls@[i as int]@);
        let t = trim_end_vec(&ls[i]);
        let ghost before = views(out@);
        if t.len() == 0 {
            out.push(Vec::new());
            assert(views(out@) =~= before.push(Seq::<char>::empty()));
        } else {
            let ts = trim_start_vec(&t);
            let comment = ts.len() > 0 && (ts[0] == '#' || (semicolon_comments && ts[0] == ';'));
            if !comment {
                out.push(t);
                assert(views(out@) =~= before.push(trim_end(all[i as int])));
            }
        }
        i = i + 1;
    }
    assert(all.take(ls.len() as int) =~= all);
    out
}

/// The lines of the updated text: the old text without the block, a blank
/// separator line when the last remaining line is not blank, then the block.
pub open spec fn update_lines(hosts_text: Seq<char>, source_text: Seq<char>, marker: Seq<char>, eol: Seq<char>, semicolon_comments: bool) -> Seq<Seq<char>> {
    let cleaned = lines_of(spec_remove_block(hosts_text, marker, eol).0);
    let sep = if cleaned.len() > 0 && trim(cleaned.last()).len() != 0 { cleaned.push(Seq::empty()) } else { cleaned };
    sep.push(spec_begin_marker(marker)) + spec_source_lines(lines_of(source_text), semicolon_comments)
        + seq![spec_end_marker(marker)]
}

/// The text after replacing the block named `marker` with the source lines.
pub open spec fn spec_update_block(hosts_text: Seq<char>, source_text: Seq<char>, marker: Seq<char>, eol: Seq<char>, semicolon_comments: bool) -> Seq<char> {
    let joined = join(update_lines(hosts_text, source_text, marker, eol, semicolon_comments), eol);
    if ends_with(joined, eol) { joined } else { joined + eol }
}

/// Replaces (or adds at the end) the block named `marker` with the lines of
/// `source_text`; lines are joined with `eol`.
pub fn update_hosts_block(hosts_text: &str, source_text: &str, marker: &str, eol: &str, semicolon_comments: bool) -> (r: String)
    ensures
        r@ == spec_update_block(hosts_text@, source_text@, marker@, eol@, semicolon_comments),
{
    let (cleaned, _removed) = remove_hosts_block(hosts_text, marker, eol);
    let cv = chars_of(cleaned.as_str());
    let mut lines = lines_chars(&cv);
    let ghost cl = views(lines@);
    let n = lines.len();
    if n > 0 {
        let last_t = trim_vec(&lines[n - 1]);
        if last_t.len() != 0 {
            lines.push(Vec::new());
            assert(views(lines@) =~= cl.push(Seq::<char>::empty()));
        }
    }
    let ghost sep = views(lines@);
    let b = chars_of(begin_marker(marker).as_str());
    lines.push(b);
    assert(views(lines@) =~= sep.push(spec_begin_marker(marker@)));
    let src = normalize_source_lines(source_text, semicolon_comments);
    let mut j: usize = 0;
    let ghost head = views(lines@);
    while j < src.len()
        invariant
            j <= src.len(),
            views(lines@) == head + views(src@).take(j as int),
        decreases src.len() - j,
    {
        let ghost before = views(lines@);
        lines.push(copy(&src[j]));
        assert(views(lines@) =~= head + views(src@).take(j + 1)) by {
            assert(views(lines@) =~= before.push(views(src@)[j as int]));
        }
        j = j + 1;
    }
    assert(views(src@).take(src.len() as int) =~= views(src@));
    let ghost mid = views(lines@);
    lines.push(chars_of(end_marker(marker).as_str()));
    assert(views(lines@) =~= mid + seq![spec_end_marker(marker@)]);
    let e = chars_of(eol);
    let mut joined = join_chars(&lines, &e);
    if !ends_with_chars(&joined, &e) {
        append_chars(&mut joined, &e);
    }
    string_from(&joined)
}

// ------------------------------------------------------------------------
// Encodings
// ------------------------------------------------------------------------

/// The encoding a `hosts` file was read in, kept for writing it back.
#[derive(Debug, Clone, Copy, PartialEq, Eq, Structural)]
pub enum TextEncoding {
    Utf8Bom,
    Utf8NoBom,
    Utf16Le,
    Utf16Be,
    Windows1251,
}

/// What `encoding_rs::UTF_8.decode` yields for the bytes.
pub uninterp spec fn utf8_decode_lossy(bytes: Seq<u8>) -> Seq<char>;

/// What `encoding_rs::UTF_16LE.decode` yields for the bytes.
pub uninterp spec fn utf16le_decode(bytes: Seq<u8>) -> Seq<char>;

/// What `encoding_rs::UTF_16BE.decode` yields for the bytes.
pub uninterp spec fn utf16be_decode(bytes: Seq<u8>) -> Seq<char>;

/// What `encoding_rs::WINDOWS_1251.decode` yields for the bytes.
pub uninterp spec fn windows1251_decode(bytes: Seq<u8>) -> Seq<char>;

/// What `encoding_rs::WINDOWS_1251.encode` yields for the text.
pub uninterp spec fn windows1251_encode(text: Seq<char>) -> Seq<u8>;

/// `encoding_rs::UTF_8.decode`: the text of the bytes (BOM sniffing,
/// malformed sequences replaced); its result is named. On valid UTF-8 that
/// starts with no byte order mark the crate hands the input back as it is,
/// so the text is the one the bytes encode.
#[verifier::external_body]
fn decode_utf8_lossy(b: &[u8]) -> (r: String)
    ensures
        r@ == utf8_decode_lossy(b@),
        valid_utf8(b@) && !has_utf8_bom(b@) && !has_utf16le_bom(b@) && !has_utf16be_bom(b@) ==> r@ == decode_utf8(b@),
{
    encoding_rs::UTF_8.decode(b).0.into_owned()
}

/// `encoding_rs::UTF_16LE.decode`; its result is named, not described.
#[verifier::external_body]
fn decode_utf16le(b: &[u8]) -> (r: String)
    ensures
        r@ == utf16le_decode(b@),
{
    encoding_rs::UTF_16LE.decode(b).0.into_owned()
}

/// `encoding_rs::UTF_16BE.decode`; its result is named, not described.
#[verifier::external_body]
fn decode_utf16be(b: &[u8]) -> (r: String)
    ensures
        r@ == utf16be_decode(b@),
{
    encoding_rs::UTF_16BE.decode(b).0.into_owned()
}

/// `encoding_rs::WINDOWS_1251.decode`; its result is named, not described.
#[verifier::external_body]
fn decode_windows1251(b: &[u8]) -> (r: String)
    ensures
        r@ == windows1251_decode(b@),
{
    encoding_rs::WINDOWS_1251.decode(b).0.into_owned()
}

/// `encoding_rs::WINDOWS_1251.encode`; its result is named, not described.
#[verifier::external_body]
fn encode_windows1251(text: &str) -> (r: Vec<u8>)
    ensures
        r@ == windows1251_encode(text@),
{
    encoding_rs::WINDOWS_1251.encode(text).0.into_owned()
}

/// `encoding_rs::UTF_16LE.encode`: UTF-16 encodings encode to their output
/// encoding, UTF-8, so the result is the UTF-8 bytes of the text (as the
/// crate's source shows).
#[verifier::external_body]
fn encode_utf16le(text: &str) -> (r: Vec<u8>)
    ensures
        r@ == vstd::utf8::encode_utf8(text@),
{
    encoding_rs::UTF_16LE.encode(text).0.into_owned()
}

/// `encoding_rs::UTF_16BE.encode`: like UTF-16LE, the UTF-8 bytes of the text.
#[verifier::external_body]
fn encode_utf16be(text: &str) -> (r: Vec<u8>)
    ensures
        r@ == vstd::utf8::encode_utf8(text@),
{
    encoding_rs::UTF_16BE.encode(text).0.into_owned()
}

/// `std::str::from_utf8`: succeeds exactly on valid UTF-8, with the decoded text.
#[verifier::external_body]
fn str_from_utf8(b: &[u8]) -> (r: Option<String>)
    ensures
        r is Some <==> valid_utf8(b@),
        r matches Some(s) ==> s@ == decode_utf8(b@),
{
    std::str::from_utf8(b).ok().map(|s| s.to_string())
}

pub open spec fn has_utf8_bom(b: Seq<u8>) -> bool {
    b.len() >= 3 && b[0] == 0xEF && b[1] == 0xBB && b[2] == 0xBF
}

pub open spec fn has_utf16le_bom(b: Seq<u8>) -> bool {
    b.len() >= 2 && b[0] == 0xFF && b[1] == 0xFE
}

pub open spec fn has_utf16be_bom(b: Seq<u8>) -> bool {
    b.len() >= 2 && b[0] == 0xFE && b[1] == 0xFF
}

/// Valid UTF-8 that starts with no byte order mark.
pub open spec fn plain_utf8(b: Seq<u8>) -> bool {
    valid_utf8(b) && !has_utf8_bom(b) && !has_utf16le_bom(b) && !has_utf16be_bom(b)
}

/// The encoding and text of file bytes: a UTF-8 or UTF-16 byte order mark
/// decides, else valid UTF-8, else Windows-1251.
pub open spec fn spec_decode(b: Seq<u8>) -> (TextEncoding, Seq<char>) {
    if has_utf8_bom(b) {
        let rest = b.skip(3);
        (TextEncoding::Utf8Bom, if plain_utf8(rest) { decode_utf8(rest) } else { utf8_decode_lossy(rest) })
    } else if has_utf16le_bom(b) {
        (TextEncoding::Utf16Le, utf16le_decode(b.skip(2)))
    } else if has_utf16be_bom(b) {
        (TextEncoding::Utf16Be, utf16be_decode(b.skip(2)))
    } else if valid_utf8(b) {
        (TextEncoding::Utf8NoBom, decode_utf8(b))
    } else {
        (TextEncoding::Windows1251, windows1251_decode(b))
    }
}

fn bytes_from(b: &[u8], lo: usize) -> (r: Vec<u8>)
    requires
        lo <= b.len(),
    ensures
        r@ == b@.skip(lo as int),
{
    let mut r: Vec<u8> = Vec::new();
    let mut i = lo;
    while i < b.len()
        invariant
            lo <= i <= b.len(),
            r@ == b@.subrange(lo as int, i as int),
        decreases b.len() - i,
    {
        r.push(b[i]);
        i = i + 1;
    }
    assert(b@.subrange(lo as int, b.len() as int) =~= b@.skip(lo as int));
    r
}

/// The encoding and text of the bytes of a text file.
pub fn decode_bytes(bytes: &[u8]) -> (r: (TextEncoding, String))
    ensures
        (r.0, r.1@) == spec_decode(bytes@),
{
    let n = bytes.len();
    if n >= 3 && bytes[0] == 0xEF && bytes[1] == 0xBB && bytes[2] == 0xBF {
        return (TextEncoding::Utf8Bom, decode_utf8_lossy(&bytes_from(bytes, 3)));
    }
    if n >= 2 && bytes[0] == 0xFF && bytes[1] == 0xFE {
        return (TextEncoding::Utf16Le, decode_utf16le(&bytes_from(bytes, 2)));
    }
    if n >= 2 && bytes[0] == 0xFE && bytes[1] == 0xFF {
        return (TextEncoding::Utf16Be, decode_utf16be(&bytes_from(bytes, 2)));
    }
    match str_from_utf8(bytes) {
        Some(s) => (TextEncoding::Utf8NoBom, s),
        None => (TextEncoding::Windows1251, decode_windows1251(bytes)),
    }
}

/// The bytes written for a text in an encoding: the byte order mark (for the
/// UTF-16 encodings followed by UTF-8 bytes, which is what their encoder
/// produces), or Windows-1251.
pub open spec fn spec_encode(text: Seq<char>, enc: TextEncoding) -> Seq<u8> {
    let utf8 = vstd::utf8::encode_utf8(text);
    match enc {
        TextEncoding::Utf8Bom => seq![0xEFu8, 0xBBu8, 0xBFu8] + utf8,
        TextEncoding::Utf8NoBom => utf8,
        TextEncoding::Utf16Le => seq![0xFFu8, 0xFEu8] + utf8,
        TextEncoding::Utf16Be => seq![0xFEu8, 0xFFu8] + utf8,
        TextEncoding::Windows1251 => windows1251_encode(text),
    }
}

fn append_bytes(v: &mut Vec<u8>, s: &[u8])
    ensures
        final(v)@ == old(v)@ + s@,
{
    let mut i: usize = 0;
    let ghost start = v@;
    while i < s.len()
        invariant
            i <= s.len(),
            v@ == start + s@.take(i as int),
        decreases s.len() - i,
    {
        v.push(s[i]);
        i = i + 1;
        assert(start + s@.take(i as int) =~= (start + s@.take(i - 1)).push(s@[i - 1]));
    }
    assert(s@.take(s.len() as int) =~= s@);
}

/// The bytes of a text in an encoding.
pub fn encode_text(text: &str, enc: TextEncoding) -> (r: Vec<u8>)
    ensures
        r@ == spec_encode(text@, enc),
{
    match enc {
        TextEncoding::Utf8Bom => {
            let mut out: Vec<u8> = vec![0xEF, 0xBB, 0xBF];
            append_bytes(&mut out, text.as_bytes());
            assert(out@ =~= spec_encode(text@, enc));
            out
        },
        TextEncoding::Utf8NoBom => {
            let mut out: Vec<u8> = Vec::new();
            append_bytes(&mut out, text.as_bytes());
            assert(out@ =~= spec_encode(text@, enc));
            out
        },
        TextEncoding::Utf16Le => {
            let mut out: Vec<u8> = vec![0xFF, 0xFE];
            append_bytes(&mut out, &encode_utf16le(text));
            assert(out@ =~= spec_encode(text@, enc));
            out
        },
        TextEncoding::Utf16Be => {
            let mut out: Vec<u8> = vec![0xFE, 0xFF];
            append_bytes(&mut out, &encode_utf16be(text));
            assert(out@ =~= spec_encode(text@, enc));
            out
        },
        TextEncoding::Windows1251 => encode_windows1251(text),
    }
}

// ------------------------------------------------------------------------
// The file as bytes
// ------------------------------------------------------------------------

/// The bytes of a `hosts` file after replacing its block named `marker` with
/// the source lines, in the file's own encoding and line ending.
pub open spec fn spec_hosts_bytes_after_update(bytes: Seq<u8>, source_text: Seq<char>, marker: Seq<char>, semicolon_comments: bool) -> Seq<u8> {
    let (enc, text) = spec_decode(bytes);
    let eol = if contains(text, crlf()) { crlf() } else { lf() };
    spec_encode(spec_normalize_eol(spec_update_block(text, source_text, marker, eol, semicolon_comments), eol), enc)
}

/// The bytes of a `hosts` file without its block named `marker`, and whether
/// there was one.
pub open spec fn spec_hosts_bytes_after_remove(bytes: Seq<u8>, marker: Seq<char>) -> (Seq<u8>, bool) {
    let (enc, text) = spec_decode(bytes);
    let eol = if contains(text, crlf()) { crlf() } else { lf() };
    let (cleaned, removed) = spec_remove_block(text, marker, eol);
    (spec_encode(spec_normalize_eol(cleaned, eol), enc), removed)
}

/// The new bytes of a `hosts` file whose block named `marker` is to hold the
/// lines of `source_text`.
pub fn hosts_bytes_after_update(bytes: &[u8], source_text: &str, marker: &str, semicolon_comments: bool) -> (r: Vec<u8>)
    ensures
        r@ == spec_hosts_bytes_after_update(bytes@, source_text@, marker@, semicolon_comments),
{
    let (enc, text) = decode_bytes(bytes);
    let eol = detect_eol(text.as_str());
    let updated = update_hosts_block(text.as_str(), source_text, marker, eol.as_str(), semicolon_comments);
    let norm = normalize_eol(updated.as_str(), eol.as_str());
    encode_text(norm.as_str(), enc)
}

/// The new bytes of a `hosts` file without its block named `marker`, and
/// whether it had one.
pub fn hosts_bytes_after_remove(bytes: &[u8], marker: &str) -> (r: (Vec<u8>, bool))
    ensures
        (r.0@, r.1) == spec_hosts_bytes_after_remove(bytes@, marker@),
{
    let (enc, text) = decode_bytes(bytes);
    let eol = detect_eol(text.as_str());
    let (cleaned, removed) = remove_hosts_block(text.as_str(), marker, eol.as_str());
    let norm = normalize_eol(cleaned.as_str(), eol.as_str());
    (encode_text(norm.as_str(), enc), removed)
}

} // verus!
