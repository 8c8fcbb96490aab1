//! Reading and writing `key=value` entries of INI files (`muzap.ini`).
use vstd::prelude::*;

use crate::error::CoreError;
use crate::text::{
    append_chars, chars_of, contains, contains_chars, copy, ends_with, ends_with_chars, eq_ic,
    eq_ic_chars, join, join_chars, lines_chars, lines_of, lower, lower_vec, slice_of, split_once,
    split_once_chars, string_from, trim, trim_vec, views,
};

verus! {

/// A trimmed line of the form `[...]`.
pub open spec fn is_header(t: Seq<char>) -> bool {
    t.len() >= 2 && t[0] == '[' && t.last() == ']'
}

/// What stands between the brackets of a header.
pub open spec fn header_inner(t: Seq<char>) -> Seq<char> {
    t.subrange(1, t.len() - 1)
}

/// A trimmed line that `read_ini_value` skips: empty, or a `;`/`#` comment.
pub open spec fn is_skipped(t: Seq<char>) -> bool {
    t.len() == 0 || t[0] == ';' || t[0] == '#'
}

/// The section a trimmed line leaves the reader in, coming from section `cur`.
pub open spec fn line_state(t: Seq<char>, cur: Seq<char>) -> Seq<char> {
    if !is_skipped(t) && is_header(t) {
        lower(trim(header_inner(t)))
    } else {
        cur
    }
}

/// The value a trimmed line yields to the reader in section `cur`, if it is a
/// `key=value` line of the wanted section.
pub open spec fn line_hit(t: Seq<char>, cur: Seq<char>, section: Seq<char>, key: Seq<char>) -> Option<Seq<char>> {
    if !is_skipped(t) && !is_header(t) && eq_ic(cur, trim(section)) && split_once(t, '=') is Some
        && eq_ic(trim(split_once(t, '=').unwrap().0), trim(key)) {
        Some(trim(split_once(t, '=').unwrap().1))
    } else {
        None
    }
}

/// The value found by scanning `ls` from section `cur` (lower case).
pub open spec fn read_lines(ls: Seq<Seq<char>>, cur: Seq<char>, section: Seq<char>, key: Seq<char>) -> Option<Seq<char>>
    decreases ls.len(),
{
    if ls.len() == 0 {
        None
    } else {
        let t = trim(ls[0]);
        match line_hit(t, cur, section, key) {
            Some(v) => Some(v),
            None => read_lines(ls.drop_first(), line_state(t, cur), section, key),
        }
    }
}

/// The section the reader is in after scanning `ls` from section `cur`.
pub open spec fn read_state(ls: Seq<Seq<char>>, cur: Seq<char>) -> Seq<char>
    decreases ls.len(),
{
    if ls.len() == 0 {
        cur
    } else {
        read_state(ls.drop_first(), line_state(trim(ls[0]), cur))
    }
}

/// The trimmed value of the first `key=` line (ASCII case-insensitive, around
/// trimmed names) inside a `[section]`, if any.
pub open spec fn spec_read_ini_value(text: Seq<char>, section: Seq<char>, key: Seq<char>) -> Option<Seq<char>> {
    read_lines(lines_of(text), Seq::empty(), section, key)
}

/// The line `key=value`.
pub open spec fn kv_line(key: Seq<char>, value: Seq<char>) -> Seq<char> {
    key + seq!['='] + value
}

/// The line `[section]`.
pub open spec fn section_line(section: Seq<char>) -> Seq<char> {
    seq!['['] + section + seq![']']
}

/// State of the writer after some lines: output lines, inside the target
/// section, target section seen, key written.
pub type WriteState = (Seq<Seq<char>>, bool, bool, bool);

/// The writer's handling of one input line.
pub open spec fn write_step(st: WriteState, line: Seq<char>, section: Seq<char>, key: Seq<char>, value: Seq<char>) -> WriteState {
    let (out, in_section, found, key_set) = st;
    let t = trim(line);
    if is_header(t) {
        let closing = in_section && !key_set;
        let out1 = if closing { out.push(kv_line(key, value)) } else { out };
        let enters = eq_ic(header_inner(t), section);
        (out1.push(line), enters, found || enters, key_set || closing)
    } else if in_section && split_once(t, '=') is Some && eq_ic(trim(split_once(t, '=').unwrap().0), key) {
        (out.push(kv_line(key, value)), in_section, found, true)
    } else {
        (out.push(line), in_section, found, key_set)
    }
}

/// The writer's state after the lines `ls`.
pub open spec fn write_acc(ls: Seq<Seq<char>>, section: Seq<char>, key: Seq<char>, value: Seq<char>) -> WriteState
    decreases ls.len(),
{
    if ls.len() == 0 {
        (Seq::empty(), false, false, false)
    } else {
        write_step(write_acc(ls.drop_last(), section, key, value), ls.last(), section, key, value)
    }
}

/// The output lines: the key is added at the end of a last target section that
/// lacks it, or a new section is appended (after a blank line when the text
/// does not already end with one).
pub open spec fn write_lines(ls: Seq<Seq<char>>, section: Seq<char>, key: Seq<char>, value: Seq<char>) -> Seq<Seq<char>> {
    let (out, _in_section, found, key_set) = write_acc(ls, section, key, value);
    if found {
        if !key_set { out.push(kv_line(key, value)) } else { out }
    } else {
        let padded = if out.len() > 0 && trim(out.last()).len() != 0 { out.push(Seq::empty()) } else { out };
        padded.push(section_line(section)).push(kv_line(key, value))
    }
}

/// The lines joined by `eol`, with `eol` appended when the result does not end with it.
pub open spec fn with_final_eol(t: Seq<char>, eol: Seq<char>) -> Seq<char> {
    if ends_with(t, eol) { t } else { t + eol }
}

/// The text `write_ini_value_to_string` produces.
pub open spec fn spec_write_ini(text: Seq<char>, section: Seq<char>, key: Seq<char>, value: Seq<char>, eol: Seq<char>) -> Seq<char> {
    with_final_eol(join(write_lines(lines_of(text), section, key, value), eol), eol)
}

/// The line ending a text uses: CRLF when it contains one, LF otherwise.
pub open spec fn spec_detect_eol(s: Seq<char>) -> Seq<char> {
    if contains(s, seq!['\r', '\n']) { seq!['\r', '\n'] } else { seq!['\n'] }
}

/// The line ending a text uses: `"\r\n"` when it contains one, `"\n"` otherwise.
pub fn detect_eol(s: &str) -> (r: &'static str)
    ensures
        r@ == spec_detect_eol(s@),
{
    let v = chars_of(s);
    let crlf: [char; 2] = ['\r', '\n'];
    proof {
        reveal_strlit("\r\n");
        reveal_strlit("\n");
        assert(crlf@ =~= seq!['\r', '\n']);
    }
    if contains_chars(&v, &crlf) {
        "\r\n"
    } else {
        "\n"
    }
}

/// The line ending a write into an existing text keeps: CRLF when the text
/// has one, LF when it has line feeds but no CRLF, and CRLF, the default,
/// when it has no line break at all.
pub open spec fn spec_file_eol(s: Seq<char>) -> Seq<char> {
    if contains(s, seq!['\r', '\n']) {
        seq!['\r', '\n']
    } else if contains(s, seq!['\n']) {
        seq!['\n']
    } else {
        seq!['\r', '\n']
    }
}

fn file_eol(s: &str) -> (r: &'static str)
    ensures
        r@ == spec_file_eol(s@),
{
    let v = chars_of(s);
    let crlf: [char; 2] = ['\r', '\n'];
    let lf: [char; 1] = ['\n'];
    proof {
        reveal_strlit("\r\n");
        reveal_strlit("\n");
        assert(crlf@ =~= seq!['\r', '\n']);
        assert(lf@ =~= seq!['\n']);
    }
    if contains_chars(&v, &crlf) {
        "\r\n"
    } else if contains_chars(&v, &lf) {
        "\n"
    } else {
        "\r\n"
    }
}

/// Whether the trimmed line `t` is a header.
fn header_check(t: &Vec<char>) -> (r: bool)
    ensures
        r == is_header(t@),
{
    let n = t.len();
    n >= 2 && t[0] == '[' && t[n - 1] == ']'
}

fn inner_of(t: &Vec<char>) -> (r: Vec<char>)
    requires
        is_header(t@),
    ensures
        r@ == header_inner(t@),
{
    slice_of(t, 1, t.len() - 1)
}

/// The trimmed value of `key` in `[section]`: section and key names are
/// compared trimmed and ASCII case-insensitively; blank and `;`/`#` comment
/// lines are skipped; the first match wins.
pub fn read_ini_value(text: &str, section: &str, key: &str) -> (r: Option<String>)
    ensures
        match r {
            Some(v) => spec_read_ini_value(text@, section@, key@) == Some(v@),
            None => spec_read_ini_value(text@, section@, key@) is None,
        },
{
    let tv = chars_of(text);
    let ls = lines_chars(&tv);
    let sec = trim_vec(&chars_of(section));
    let k = trim_vec(&chars_of(key));
    let mut cur: Vec<char> = Vec::new();
    let mut i: usize = 0;
    let ghost all = views(ls@);
    assert(all.skip(0) =~= all);
    while i < ls.len()
        invariant
            i <= ls.len(),
            all == views(ls@),
            all == lines_of(text@),
            sec@ == trim(section@),
            k@ == trim(key@),
            read_lines(all.skip(i as int), cur@, section@, key@) == spec_read_ini_value(text@, section@, key@),
        decreases ls.len() - i,
    {
        let ghost rest = all.skip(i as int);
        assert(rest[0] == ls@[i as int]@);
        assert(rest.drop_first() =~= all.skip(i + 1));
        let t = trim_vec(&ls[i]);
        let n = t.len();
        if n == 0 || t[0] == ';' || t[0] == '#' {
            i = i + 1;
            continue;
        }
        if header_check(&t) {
            let inner = inner_of(&t);
            cur = lower_vec(&trim_vec(&inner));
            i = i + 1;
            continue;
        }
        if eq_ic_chars(&cur, &sec) {
            match split_once_chars(&t, '=') {
                Some((kk, vv)) => {
                    if eq_ic_chars(&trim_vec(&kk), &k) {
                        let val = trim_vec(&vv);
                        return Some(string_from(&val));
                    }
                },
                None => {},
            }
        }
        i = i + 1;
    }
    None
}

/// The lines of `text` with `section.key` set to `value`: an existing `key=`
/// line of the section is replaced, otherwise the key is added at the end of
/// the section, and a missing section is appended at the end.
pub fn write_ini_lines(text: &str, section: &str, key: &str, value: &str) -> (r: Vec<Vec<char>>)
    ensures
        views(r@) == write_lines(lines_of(text@), section@, key@, value@),
{
    let tv = chars_of(text);
    let ls = lines_chars(&tv);
    let sec = chars_of(section);
    let k = chars_of(key);
    let val = chars_of(value);
    let mut kv: Vec<char> = copy(&k);
    kv.push('=');
    append_chars(&mut kv, &val);
    assert(kv@ =~= kv_line(key@, value@));
    let ghost all = views(ls@);
    let mut out: Vec<Vec<char>> = Vec::new();
    let mut in_section = false;
    let mut found = false;
    let mut key_set = false;
    let mut i: usize = 0;
    while i < ls.len()
        invariant
            i <= ls.len(),
            all == views(ls@),
            all == lines_of(text@),
            sec@ == section@,
            k@ == key@,
            kv@ == kv_line(key@, value@),
            (views(out@), in_section, found, key_set) == write_acc(all.take(i as int), section@, key@, value@),
        decreases ls.len() - i,
    {
        let ghost prev = all.take(i as int);
        assert(all.take(i + 1).drop_last() =~= prev);
        assert(all.take(i + 1).last() == ls@[i as int]@);
        let line = &ls[i];
        let t = trim_vec(line);
        if header_check(&t) {
            if in_section && !key_set {
                out.push(copy(&kv));
                key_set = true;
            }
            let inner = inner_of(&t);
            if eq_ic_chars(&inner, &sec) {
                in_section = true;
                found = true;
            } else {
                in_section = false;
            }
            out.push(copy(line));
            assert(views(out@) =~= write_acc(all.take(i + 1), section@, key@, value@).0);
            i = i + 1;
            continue;
        }
        if in_section {
            match split_once_chars(&t, '=') {
                Some((kk, _vv)) => {
                    if eq_ic_chars(&trim_vec(&kk), &k) {
                        out.push(copy(&kv));
                        key_set = true;
                        assert(views(out@) =~= write_acc(all.take(i + 1), section@, key@, value@).0);
                        i = i + 1;
                        continue;
                    }
                },
                None => {},
            }
        }
        out.push(copy(line));
        assert(views(out@) =~= write_acc(all.take(i + 1), section@, key@, value@).0);
        i = i + 1;
    }
    assert(all.take(ls.len() as int) =~= all);
    let ghost acc_out = views(out@);
    if found && !key_set {
        out.push(copy(&kv));
    }
    if !found {
        let m = out.len();
        if m > 0 {
            let last_t = trim_vec(&out[m - 1]);
            if last_t.len() != 0 {
                out.push(Vec::new());
            }
        }
        let mut sl: Vec<char> = Vec::new();
        sl.push('[');
        append_chars(&mut sl, &sec);
        sl.push(']');
        assert(sl@ =~= section_line(section@));
        out.push(sl);
        out.push(copy(&kv));
    }
    assert(views(out@) =~= write_lines(all, section@, key@, value@));
    out
}

/// `text` with `section.key` set to `value` (as `write_ini_lines` does it),
/// lines joined by `eol` and ending with `eol`.
pub fn write_ini_value_to_string(text: &str, section: &str, key: &str, value: &str, eol: &str) -> (r: String)
    ensures
        r@ == spec_write_ini(text@, section@, key@, value@, eol@),
{
    let out = write_ini_lines(text, section, key, value);
    let eolv = chars_of(eol);
    let mut joined = join_chars(&out, &eolv);
    if !ends_with_chars(&joined, &eolv) {
        append_chars(&mut joined, &eolv);
    }
    string_from(&joined)
}

/// The new text of an INI file after setting `section.key = value`, given the
/// current text (`None` when the file does not exist): empty section or key
/// names are refused; the file's own line ending is kept, CRLF when it has
/// none (and for a new file).
pub fn ini_text_after_write(existing: Option<&str>, section: &str, key: &str, value: &str) -> (r: Result<String, CoreError>)
    ensures
        trim(section@).len() == 0 ==> (r matches Err(CoreError::Arg(m)) && m@ == "Секция INI пустая"@),
        trim(section@).len() != 0 && trim(key@).len() == 0 ==> (r matches Err(CoreError::Arg(m)) && m@ == "Ключ INI пустой"@),
        trim(section@).len() != 0 && trim(key@).len() != 0 ==> match existing {
            Some(t) => r matches Ok(s) && s@ == spec_write_ini(t@, section@, key@, value@, spec_file_eol(t@)),
            None => r matches Ok(s) && s@ == spec_write_ini(Seq::empty(), section@, key@, value@, seq!['\r', '\n']),
        },
{
    if trim_vec(&chars_of(section)).len() == 0 {
        return Err(CoreError::arg("Секция INI пустая"));
    }
    if trim_vec(&chars_of(key)).len() == 0 {
        return Err(CoreError::arg("Ключ INI пустой"));
    }
    match existing {
        Some(t) => {
            let eol = file_eol(t);
            Ok(write_ini_value_to_string(t, section, key, value, eol))
        },
        None => {
            proof {
                reveal_strlit("");
                reveal_strlit("\r\n");
                assert(""@ =~= Seq::<char>::empty());
                assert("\r\n"@ =~= seq!['\r', '\n']);
            }
            Ok(write_ini_value_to_string("", section, key, value, "\r\n"))
        },
    }
}

} // verus!
