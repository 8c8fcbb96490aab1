//! What reading an INI text gives back after writing a value into it.
use vstd::prelude::*;

use crate::ini::{
    header_inner, is_header, is_skipped, kv_line, line_hit, line_state, read_lines,
    read_state, section_line, spec_read_ini_value, spec_write_ini, with_final_eol, write_acc,
    write_lines, write_step,
};
use crate::text::{
    eq_ic, find_char, is_ws, join, lemma_find_char, lines_acc, lines_of, lower, lower_c, split_once,
    strip_cr, trim, trim_end, trim_start,
};

verus! {

/// `s` holds no line feed.
pub open spec fn no_nl(s: Seq<char>) -> bool {
    forall|i: int| 0 <= i < s.len() ==> s[i] != '\n'
}

/// A section name the format can hold and give back: non-empty, without
/// surrounding whitespace, on one line.
pub open spec fn section_name_ok(s: Seq<char>) -> bool {
    s.len() > 0 && trim(s) == s && no_nl(s)
}

/// A key the format can hold and give back: non-empty, without surrounding
/// whitespace or `=`, on one line, and not read as a comment or a header.
pub open spec fn key_name_ok(k: Seq<char>) -> bool {
    &&& k.len() > 0
    &&& trim(k) == k
    &&& no_nl(k)
    &&& find_char(k, '=') is None
    &&& k[0] != ';' && k[0] != '#' && k[0] != '['
}

/// A value the format can hold and give back: without surrounding whitespace, on one line.
pub open spec fn value_ok(v: Seq<char>) -> bool {
    trim(v) == v && no_nl(v)
}

/// The writer matches section headers exactly (ASCII case aside) while the
/// reader trims them first; the two agree on every header of the text.
pub open spec fn headers_agree(text: Seq<char>, s: Seq<char>) -> bool {
    forall|i: int|
        0 <= i < lines_of(text).len() && is_header(trim(#[trigger] lines_of(text)[i])) && eq_ic(
            trim(header_inner(trim(lines_of(text)[i]))),
            s,
        ) ==> eq_ic(header_inner(trim(lines_of(text)[i])), s)
}

// ------------------------------------------------------------------------
// Facts about trimming and case folding
// ------------------------------------------------------------------------

proof fn lemma_trim_start_len(s: Seq<char>)
    ensures
        trim_start(s).len() <= s.len(),
        trim_start(s).len() == s.len() ==> trim_start(s) == s,
        s.len() > 0 && is_ws(s[0]) ==> trim_start(s).len() < s.len(),
    decreases s.len(),
{
    if s.len() > 0 && is_ws(s[0]) {
        lemma_trim_start_len(s.drop_first());
    }
}

proof fn lemma_trim_end_len(s: Seq<char>)
    ensures
        trim_end(s).len() <= s.len(),
        s.len() > 0 && is_ws(s.last()) ==> trim_end(s).len() < s.len(),
    decreases s.len(),
{
    if s.len() > 0 && is_ws(s.last()) {
        lemma_trim_end_len(s.drop_last());
    }
}

/// A string keeps itself under `trim` exactly when it is empty or starts and
/// ends with non-whitespace.
pub proof fn lemma_trim_fixed(s: Seq<char>)
    ensures
        (trim(s) == s) <==> (s.len() == 0 || (!is_ws(s[0]) && !is_ws(s.last()))),
{
    lemma_trim_start_len(s);
    lemma_trim_end_len(trim_start(s));
    if s.len() > 0 && !is_ws(s[0]) && !is_ws(s.last()) {
        assert(trim_start(s) == s);
        assert(trim_end(s) == s);
    }
}

proof fn lemma_lower_ws(c: char)
    ensures
        is_ws(lower_c(c)) == is_ws(c),
{
}

pub proof fn lemma_lower_idem(s: Seq<char>)
    ensures
        lower(lower(s)) == lower(s),
{
    assert(lower(lower(s)) =~= lower(s));
}

/// Two strings equal up to ASCII case have their whitespace at the same places.
pub proof fn lemma_eq_ic_trim_fixed(a: Seq<char>, b: Seq<char>)
    requires
        eq_ic(a, b),
        trim(b) == b,
    ensures
        trim(a) == a,
{
    lemma_trim_fixed(a);
    lemma_trim_fixed(b);
    assert(lower(a).len() == a.len());
    assert(lower(b).len() == b.len());
    if a.len() > 0 {
        assert(lower(a)[0] == lower(b)[0]);
        lemma_lower_ws(a[0]);
        lemma_lower_ws(b[0]);
        assert(lower(a)[a.len() - 1] == lower(b)[b.len() - 1]);
        lemma_lower_ws(a.last());
        lemma_lower_ws(b.last());
    }
}

/// Appending whitespace does not change the trimmed string.
proof fn lemma_trim_start_push(y: Seq<char>, c: char)
    ensures
        trim_start(y.push(c)) == (if trim_start(y).len() == 0 { trim_start(seq![c]) } else { trim_start(y).push(c) }),
    decreases y.len(),
{
    if y.len() == 0 {
        assert(y.push(c) =~= seq![c]);
    } else if is_ws(y[0]) {
        assert(y.push(c).drop_first() =~= y.drop_first().push(c));
        lemma_trim_start_push(y.drop_first(), c);
    } else {
        lemma_trim_start_len(y);
    }
}

proof fn lemma_trim_push_ws(y: Seq<char>, c: char)
    requires
        is_ws(c),
    ensures
        trim(y.push(c)) == trim(y),
{
    lemma_trim_start_push(y, c);
    if trim_start(y).len() == 0 {
        assert(seq![c][0] == c);
        assert(seq![c].drop_first() =~= Seq::<char>::empty());
        assert(trim_start(Seq::<char>::empty()) == Seq::<char>::empty());
        assert(trim_start(seq![c]) == Seq::<char>::empty());
    } else {
        assert(trim_start(y).push(c).drop_last() =~= trim_start(y));
    }
}

pub proof fn lemma_trim_strip_cr(l: Seq<char>)
    ensures
        trim(strip_cr(l)) == trim(l),
{
    if l.len() > 0 && l.last() == '\r' {
        assert(l.drop_last().push('\r') =~= l);
        lemma_trim_push_ws(l.drop_last(), '\r');
    }
}

// ------------------------------------------------------------------------
// Lines of joined text
// ------------------------------------------------------------------------

/// How a written line reads back after `eol`: an LF ending also takes a
/// trailing CR away.
pub open spec fn eol_view(l: Seq<char>, eol: Seq<char>) -> Seq<char> {
    if eol == seq!['\n'] {
        strip_cr(l)
    } else {
        l
    }
}

pub open spec fn eol_ok(eol: Seq<char>) -> bool {
    eol == seq!['\n'] || eol == seq!['\r', '\n']
}

pub proof fn lemma_lines_acc_append(a: Seq<char>, b: Seq<char>)
    requires
        no_nl(b),
    ensures
        lines_acc(a + b) == (lines_acc(a).0, lines_acc(a).1 + b),
    decreases b.len(),
{
    if b.len() == 0 {
        assert(a + b =~= a);
        assert(lines_acc(a).1 + b =~= lines_acc(a).1);
    } else {
        lemma_lines_acc_append(a, b.drop_last());
        assert((a + b).drop_last() =~= a + b.drop_last());
        assert((a + b).last() == b.last());
        assert((lines_acc(a).1 + b.drop_last()).push(b.last()) =~= lines_acc(a).1 + b);
    }
}

pub proof fn lemma_lines_acc_line(a: Seq<char>, x: Seq<char>, eol: Seq<char>)
    requires
        no_nl(x),
        eol_ok(eol),
        lines_acc(a).1.len() == 0,
    ensures
        lines_acc(a + x + eol) == (lines_acc(a).0.push(eol_view(x, eol)), Seq::<char>::empty()),
{
    lemma_lines_acc_append(a, x);
    assert(lines_acc(a).1 + x =~= x);
    let ax = a + x;
    let d = lines_acc(a).0;
    assert(lines_acc(ax) == (d, x));
    if eol == seq!['\n'] {
        assert(a + x + eol =~= ax.push('\n'));
        assert(ax.push('\n').drop_last() =~= ax);
        assert(lines_acc(ax.push('\n')) == (d.push(strip_cr(x)), Seq::<char>::empty()));
    } else {
        assert(a + x + eol =~= ax.push('\r').push('\n'));
        assert(ax.push('\r').drop_last() =~= ax);
        assert(lines_acc(ax.push('\r')) == (d, x.push('\r')));
        assert(ax.push('\r').push('\n').drop_last() =~= ax.push('\r'));
        assert(x.push('\r').drop_last() =~= x);
        assert(strip_cr(x.push('\r')) == x);
        assert(lines_acc(ax.push('\r').push('\n')) == (d.push(x), Seq::<char>::empty()));
    }
}

pub proof fn lemma_lines_join(ls: Seq<Seq<char>>, eol: Seq<char>)
    requires
        ls.len() > 0,
        forall|i: int| 0 <= i < ls.len() ==> no_nl(#[trigger] ls[i]),
        eol_ok(eol),
    ensures
        lines_acc(join(ls, eol) + eol) == (
            ls.map_values(|l: Seq<char>| eol_view(l, eol)),
            Seq::<char>::empty(),
        ),
    decreases ls.len(),
{
    if ls.len() == 1 {
        let e = Seq::<char>::empty();
        assert(e + ls[0] + eol =~= join(ls, eol) + eol);
        lemma_lines_acc_line(e, ls[0], eol);
        assert(lines_acc(e).0.push(eol_view(ls[0], eol)) =~= ls.map_values(
            |l: Seq<char>| eol_view(l, eol),
        ));
    } else {
        let front = ls.drop_last();
        assert forall|i: int| 0 <= i < front.len() implies no_nl(#[trigger] front[i]) by {
            assert(front[i] == ls[i]);
        }
        lemma_lines_join(front, eol);
        let a = join(front, eol) + eol;
        assert(join(ls, eol) + eol =~= a + ls.last() + eol);
        assert(no_nl(ls[ls.len() - 1]));
        lemma_lines_acc_line(a, ls.last(), eol);
        assert(front.map_values(|l: Seq<char>| eol_view(l, eol)).push(eol_view(ls.last(), eol))
            =~= ls.map_values(|l: Seq<char>| eol_view(l, eol)));
    }
}

// ------------------------------------------------------------------------
// The reader
// ------------------------------------------------------------------------

proof fn lemma_read_push(ls: Seq<Seq<char>>, x: Seq<char>, cur: Seq<char>, section: Seq<char>, key: Seq<char>)
    ensures
        read_lines(ls.push(x), cur, section, key) == (match read_lines(ls, cur, section, key) {
            Some(r) => Some(r),
            None => line_hit(trim(x), read_state(ls, cur), section, key),
        }),
        read_state(ls.push(x), cur) == line_state(trim(x), read_state(ls, cur)),
    decreases ls.len(),
{
    let e = Seq::<Seq<char>>::empty();
    assert(read_lines(e, cur, section, key) is None);
    assert(read_state(e, cur) == cur);
    if ls.len() == 0 {
        assert(ls.push(x).drop_first() =~= e);
        assert(ls.push(x)[0] == x);
        assert(read_state(ls.push(x), cur) == read_state(e, line_state(trim(x), cur)));
        assert(read_lines(e, line_state(trim(x), cur), section, key) is None);
        assert(read_lines(ls.push(x), cur, section, key) == line_hit(trim(x), cur, section, key));
    } else {
        let nxt = line_state(trim(ls[0]), cur);
        assert(ls.push(x).drop_first() =~= ls.drop_first().push(x));
        assert(ls.push(x)[0] == ls[0]);
        lemma_read_push(ls.drop_first(), x, nxt, section, key);
        assert(read_state(ls.push(x), cur) == read_state(ls.drop_first().push(x), nxt));
        assert(read_state(ls, cur) == read_state(ls.drop_first(), nxt));
        let h = line_hit(trim(ls[0]), cur, section, key);
        if h is None {
            assert(read_lines(ls.push(x), cur, section, key) == read_lines(ls.drop_first().push(x), nxt, section, key));
            assert(read_lines(ls, cur, section, key) == read_lines(ls.drop_first(), nxt, section, key));
        } else {
            assert(read_lines(ls.push(x), cur, section, key) == h);
            assert(read_lines(ls, cur, section, key) == h);
        }
    }
}

/// The reader sees only trimmed lines, and trailing blank lines change nothing.
proof fn lemma_read_equiv(m: Seq<Seq<char>>, l: Seq<Seq<char>>, cur: Seq<char>, section: Seq<char>, key: Seq<char>)
    requires
        m.len() <= l.len(),
        forall|i: int| 0 <= i < m.len() ==> trim(#[trigger] m[i]) == trim(l[i]),
        forall|i: int| m.len() <= i < l.len() ==> trim(#[trigger] l[i]).len() == 0,
    ensures
        read_lines(m, cur, section, key) == read_lines(l, cur, section, key),
    decreases l.len(),
{
    if l.len() == 0 {
    } else if m.len() == 0 {
        assert(trim(l[0]).len() == 0);
        assert forall|i: int| 0 <= i < l.drop_first().len() implies trim(
            #[trigger] l.drop_first()[i],
        ).len() == 0 by {
            assert(l.drop_first()[i] == l[i + 1]);
        }
        lemma_read_equiv(m, l.drop_first(), cur, section, key);
    } else {
        assert(trim(m[0]) == trim(l[0]));
        let m2 = m.drop_first();
        let l2 = l.drop_first();
        assert forall|i: int| 0 <= i < m2.len() implies trim(#[trigger] m2[i]) == trim(l2[i]) by {
            assert(m2[i] == m[i + 1]);
            assert(l2[i] == l[i + 1]);
        }
        assert forall|i: int| m2.len() <= i < l2.len() implies trim(#[trigger] l2[i]).len() == 0 by {
            assert(l2[i] == l[i + 1]);
        }
        lemma_read_equiv(m2, l2, line_state(trim(m[0]), cur), section, key);
    }
}

/// The lines read back from the written text are the written lines, up to
/// trimming and a dropped blank last line.
proof fn lemma_read_back_lines(w: Seq<Seq<char>>, eol: Seq<char>, cur: Seq<char>, section: Seq<char>, key: Seq<char>)
    requires
        w.len() > 0,
        forall|i: int| 0 <= i < w.len() ==> no_nl(#[trigger] w[i]),
        eol_ok(eol),
    ensures
        read_lines(lines_of(with_final_eol(join(w, eol), eol)), cur, section, key) == read_lines(
            w,
            cur,
            section,
            key,
        ),
{
    let t = with_final_eol(join(w, eol), eol);
    if t == join(w, eol) + eol {
        lemma_lines_join(w, eol);
        let m = w.map_values(|l: Seq<char>| eol_view(l, eol));
        assert(lines_of(t) == m);
        assert forall|i: int| 0 <= i < m.len() implies trim(#[trigger] m[i]) == trim(w[i]) by {
            lemma_trim_strip_cr(w[i]);
        }
        lemma_read_equiv(m, w, cur, section, key);
    } else {
        assert(t == join(w, eol));
        if w.len() == 1 {
            let e = Seq::<char>::empty();
            lemma_lines_acc_append(e, w[0]);
            assert(e + w[0] =~= t);
            assert(lines_acc(e).1 + w[0] =~= w[0]);
            if w[0].len() > 0 {
                assert(lines_of(t) =~= w);
            } else {
                assert(lines_of(t) =~= Seq::<Seq<char>>::empty());
            }
            lemma_read_equiv(lines_of(t), w, cur, section, key);
        } else {
            let front = w.drop_last();
            assert forall|i: int| 0 <= i < front.len() implies no_nl(#[trigger] front[i]) by {
                assert(front[i] == w[i]);
            }
            lemma_lines_join(front, eol);
            let a = join(front, eol) + eol;
            assert(t =~= a + w.last());
            assert(no_nl(w[w.len() - 1]));
            lemma_lines_acc_append(a, w.last());
            let fm = front.map_values(|l: Seq<char>| eol_view(l, eol));
            assert(Seq::<char>::empty() + w.last() =~= w.last());
            assert forall|i: int| 0 <= i < fm.len() implies trim(#[trigger] fm[i]) == trim(w[i]) by {
                lemma_trim_strip_cr(w[i]);
            }
            if w.last().len() > 0 {
                assert(lines_of(t) == fm.push(w.last()));
                let m = fm.push(w.last());
                assert forall|i: int| 0 <= i < m.len() implies trim(#[trigger] m[i]) == trim(w[i]) by {
                    if i < fm.len() {
                        assert(m[i] == fm[i]);
                    }
                }
                lemma_read_equiv(m, w, cur, section, key);
            } else {
                assert(lines_of(t) == fm);
                lemma_read_equiv(fm, w, cur, section, key);
            }
        }
    }
}

// ------------------------------------------------------------------------
// The lines the writer emits, as the reader sees them
// ------------------------------------------------------------------------

proof fn lemma_find_none(s: Seq<char>, c: char)
    ensures
        find_char(s, c) is None ==> forall|j: int| 0 <= j < s.len() ==> s[j] != c,
    decreases s.len(),
{
    if s.len() > 0 {
        lemma_find_none(s.drop_first(), c);
        if find_char(s, c) is None {
            assert forall|j: int| 0 <= j < s.len() implies s[j] != c by {
                if j > 0 {
                    assert(s[j] == s.drop_first()[j - 1]);
                }
            }
        }
    }
}

proof fn lemma_kv_line(k: Seq<char>, v: Seq<char>, cur: Seq<char>, s: Seq<char>)
    requires
        key_name_ok(k),
        value_ok(v),
    ensures
        line_hit(trim(kv_line(k, v)), cur, s, k) == (if eq_ic(cur, trim(s)) { Some(v) } else { None::<Seq<char>> }),
        line_state(trim(kv_line(k, v)), cur) == cur,
        no_nl(kv_line(k, v)),
        trim(kv_line(k, v)) == kv_line(k, v),
        split_once(kv_line(k, v), '=') == Some((k, v)),
        !is_header(kv_line(k, v)),
        !is_skipped(kv_line(k, v)),
{
    let kv = kv_line(k, v);
    lemma_trim_fixed(k);
    lemma_trim_fixed(v);
    assert(kv[0] == k[0]);
    if v.len() > 0 {
        assert(kv.last() == v.last());
    } else {
        assert(kv.last() == '=');
    }
    lemma_trim_fixed(kv);
    assert(trim(kv) == kv);
    lemma_find_none(k, '=');
    assert forall|j: int| 0 <= j < k.len() implies kv[j] != '=' by {
        assert(kv[j] == k[j]);
    }
    assert(kv[k.len() as int] == '=');
    lemma_find_char(kv, '=', k.len() as int);
    assert(split_once(kv, '=') == Some((kv.take(k.len() as int), kv.skip(k.len() as int + 1))));
    assert(kv.take(k.len() as int) =~= k);
    assert(kv.skip(k.len() as int + 1) =~= v);
    assert forall|i: int| 0 <= i < kv.len() implies kv[i] != '\n' by {
        if i < k.len() {
            assert(kv[i] == k[i]);
        } else if i > k.len() {
            assert(kv[i] == v[i - k.len() - 1]);
        }
    }
}


pub proof fn lemma_lines_no_nl(t: Seq<char>)
    ensures
        forall|i: int| 0 <= i < lines_acc(t).0.len() ==> no_nl(#[trigger] lines_acc(t).0[i]),
        no_nl(lines_acc(t).1),
        forall|i: int| 0 <= i < lines_of(t).len() ==> no_nl(#[trigger] lines_of(t)[i]),
    decreases t.len(),
{
    if t.len() > 0 {
        lemma_lines_no_nl(t.drop_last());
        let (d, c) = lines_acc(t.drop_last());
        if t.last() == '\n' {
            assert(no_nl(strip_cr(c))) by {
                if c.len() > 0 && c.last() == '\r' {
                    assert forall|j: int| 0 <= j < c.drop_last().len() implies c.drop_last()[j] != '\n' by {
                        assert(c.drop_last()[j] == c[j]);
                    }
                }
            }
            assert forall|i: int| 0 <= i < lines_acc(t).0.len() implies no_nl(#[trigger] lines_acc(t).0[i]) by {
                if i < d.len() {
                    assert(lines_acc(t).0[i] == d[i]);
                }
            }
        } else {
            assert forall|j: int| 0 <= j < c.push(t.last()).len() implies c.push(t.last())[j] != '\n' by {
                if j < c.len() {
                    assert(c.push(t.last())[j] == c[j]);
                }
            }
        }
    }
    let (d, c) = lines_acc(t);
    assert forall|i: int| 0 <= i < lines_of(t).len() implies no_nl(#[trigger] lines_of(t)[i]) by {
        if i < d.len() {
            assert(lines_of(t)[i] == d[i]);
        }
    }
}

/// One text line never makes the writer and the reader disagree on a header.
pub open spec fn header_ok(line: Seq<char>, s: Seq<char>) -> bool {
    is_header(trim(line)) && eq_ic(trim(header_inner(trim(line))), s) ==> eq_ic(header_inner(trim(line)), s)
}

/// What the reader sees of the writer's output so far.
pub open spec fn write_inv(st: (Seq<Seq<char>>, bool, bool, bool), s: Seq<char>, k: Seq<char>, v: Seq<char>) -> bool {
    let (out, ins, found, kset) = st;
    let e = Seq::<char>::empty();
    &&& eq_ic(read_state(out, e), s) == ins
    &&& kset ==> read_lines(out, e, s, k) == Some(v)
    &&& !kset ==> read_lines(out, e, s, k) is None
    &&& found && !ins ==> kset
    &&& ins ==> found
    &&& kset ==> found
    &&& forall|i: int| 0 <= i < out.len() ==> no_nl(#[trigger] out[i])
}

proof fn lemma_no_nl_push(out: Seq<Seq<char>>, x: Seq<char>)
    requires
        forall|i: int| 0 <= i < out.len() ==> no_nl(#[trigger] out[i]),
        no_nl(x),
    ensures
        forall|i: int| 0 <= i < out.push(x).len() ==> no_nl(#[trigger] out.push(x)[i]),
{
    assert forall|i: int| 0 <= i < out.push(x).len() implies no_nl(#[trigger] out.push(x)[i]) by {
        if i < out.len() {
            assert(out.push(x)[i] == out[i]);
        }
    }
}

proof fn lemma_write_inv(ls: Seq<Seq<char>>, s: Seq<char>, k: Seq<char>, v: Seq<char>)
    requires
        section_name_ok(s),
        key_name_ok(k),
        value_ok(v),
        forall|i: int| 0 <= i < ls.len() ==> no_nl(#[trigger] ls[i]) && header_ok(ls[i], s),
    ensures
        write_inv(write_acc(ls, s, k, v), s, k, v),
    decreases ls.len(),
{
    let e = Seq::<char>::empty();
    if ls.len() == 0 {
        assert(read_state(Seq::<Seq<char>>::empty(), e) == e);
        assert(lower(e).len() == 0);
        assert(lower(s).len() == s.len());
        return;
    }
    let front = ls.drop_last();
    assert forall|i: int| 0 <= i < front.len() implies no_nl(#[trigger] front[i]) && header_ok(front[i], s) by {
        assert(front[i] == ls[i]);
    }
    lemma_write_inv(front, s, k, v);
    let st = write_acc(front, s, k, v);
    let (out, ins, found, kset) = st;
    let line = ls.last();
    assert(no_nl(line) && header_ok(line, s));
    let t = trim(line);
    let kv = kv_line(k, v);
    let rs = read_state(out, e);
    assert(trim(s) == s);
    assert(trim(k) == k);
    lemma_kv_line(k, v, rs, s);
    assert(write_acc(ls, s, k, v) == write_step(st, line, s, k, v));
    if is_header(t) {
        let closing = ins && !kset;
        let out1 = if closing { out.push(kv) } else { out };
        lemma_read_push(out, kv, e, s, k);
        lemma_no_nl_push(out, kv);
        assert(read_state(out1, e) == rs);
        assert(closing ==> read_lines(out1, e, s, k) == Some(v));
        assert(!closing ==> read_lines(out1, e, s, k) == read_lines(out, e, s, k));
        lemma_read_push(out1, line, e, s, k);
        lemma_no_nl_push(out1, line);
        let inner = header_inner(t);
        let nst = lower(trim(inner));
        assert(read_state(out1.push(line), e) == nst);
        lemma_lower_idem(trim(inner));
        if eq_ic(inner, s) {
            lemma_eq_ic_trim_fixed(inner, s);
        }
        assert(eq_ic(nst, s) == eq_ic(inner, s));
    } else if ins && split_once(t, '=') is Some && eq_ic(trim(split_once(t, '=').unwrap().0), k) {
        lemma_read_push(out, kv, e, s, k);
        lemma_no_nl_push(out, kv);
    } else {
        lemma_read_push(out, line, e, s, k);
        lemma_no_nl_push(out, line);
        assert(line_hit(t, rs, s, k) is None);
        assert(line_state(t, rs) == rs);
    }
}

/// Every line the writer has emitted so far keeps the headers as the reader sees them.
proof fn lemma_write_headers(ls: Seq<Seq<char>>, s: Seq<char>, k: Seq<char>, v: Seq<char>)
    requires
        key_name_ok(k),
        value_ok(v),
        forall|i: int| 0 <= i < ls.len() ==> header_ok(#[trigger] ls[i], s),
    ensures
        forall|i: int| 0 <= i < write_acc(ls, s, k, v).0.len() ==> header_ok(#[trigger] write_acc(ls, s, k, v).0[i], s),
    decreases ls.len(),
{
    if ls.len() > 0 {
        let front = ls.drop_last();
        assert forall|i: int| 0 <= i < front.len() implies header_ok(#[trigger] front[i], s) by {
            assert(front[i] == ls[i]);
        }
        lemma_write_headers(front, s, k, v);
        lemma_kv_line(k, v, Seq::empty(), s);
        let out = write_acc(front, s, k, v).0;
        let kv = kv_line(k, v);
        let line = ls.last();
        assert(header_ok(kv, s));
        assert(header_ok(line, s));
        assert forall|i: int| 0 <= i < out.push(kv).len() implies header_ok(#[trigger] out.push(kv)[i], s) by {
            if i < out.len() {
                assert(out.push(kv)[i] == out[i]);
            }
        }
        assert forall|i: int| 0 <= i < out.push(line).len() implies header_ok(#[trigger] out.push(line)[i], s) by {
            if i < out.len() {
                assert(out.push(line)[i] == out[i]);
            }
        }
        assert forall|i: int| 0 <= i < out.push(kv).push(line).len() implies header_ok(#[trigger] out.push(kv).push(line)[i], s) by {
            if i < out.len() {
                assert(out.push(kv).push(line)[i] == out[i]);
            } else if i == out.len() {
                assert(out.push(kv).push(line)[i] == kv);
            }
        }
    }
}

/// The writer's lines hold the written value for the reader, sit on one line
/// each, and keep the headers as the reader sees them.
pub proof fn lemma_written_lines(ls: Seq<Seq<char>>, s: Seq<char>, k: Seq<char>, v: Seq<char>)
    requires
        section_name_ok(s),
        key_name_ok(k),
        value_ok(v),
        forall|i: int| 0 <= i < ls.len() ==> no_nl(#[trigger] ls[i]) && header_ok(ls[i], s),
    ensures
        read_lines(write_lines(ls, s, k, v), Seq::empty(), s, k) == Some(v),
        write_lines(ls, s, k, v).len() > 0,
        forall|i: int| 0 <= i < write_lines(ls, s, k, v).len() ==> no_nl(#[trigger] write_lines(ls, s, k, v)[i])
            && header_ok(write_lines(ls, s, k, v)[i], s),
{
    let e = Seq::<char>::empty();
    lemma_write_inv(ls, s, k, v);
    lemma_write_headers(ls, s, k, v);
    let (out, ins, found, kset) = write_acc(ls, s, k, v);
    let kv = kv_line(k, v);
    let w = write_lines(ls, s, k, v);
    lemma_kv_line(k, v, read_state(out, e), s);
    if found {
        if !kset {
            lemma_read_push(out, kv, e, s, k);
            lemma_no_nl_push(out, kv);
        }
    } else {
        let padded = if out.len() > 0 && trim(out.last()).len() != 0 { out.push(e) } else { out };
        assert(no_nl(e));
        lemma_read_push(out, e, e, s, k);
        lemma_no_nl_push(out, e);
        assert(trim(e) == e) by {
            lemma_trim_fixed(e);
        }
        assert(read_lines(padded, e, s, k) is None);
        assert(read_state(padded, e) == read_state(out, e));
        let sl = section_line(s);
        lemma_trim_fixed(s);
        assert(sl[0] == '[');
        assert(sl.last() == ']');
        lemma_trim_fixed(sl);
        assert(header_inner(sl) =~= s);
        assert forall|j: int| 0 <= j < sl.len() implies sl[j] != '\n' by {
            if 0 < j < sl.len() - 1 {
                assert(sl[j] == s[j - 1]);
            }
        }
        lemma_read_push(padded, sl, e, s, k);
        lemma_no_nl_push(padded, sl);
        lemma_lower_idem(s);
        assert(read_state(padded.push(sl), e) == lower(s));
        lemma_kv_line(k, v, lower(s), s);
        lemma_read_push(padded.push(sl), kv, e, s, k);
        lemma_no_nl_push(padded.push(sl), kv);
        assert(w == padded.push(sl).push(kv));
    }
    assert(read_lines(w, e, s, k) == Some(v));
    assert forall|i: int| 0 <= i < w.len() implies no_nl(#[trigger] w[i]) && header_ok(w[i], s) by {
        lemma_kv_line(k, v, e, s);
        lemma_trim_fixed(e);
    }
}


/// Writing `section.key = value` into an INI text and reading the key back
/// gives the value: for section and key names and values the format can hold,
/// either line ending, and texts whose headers the writer and reader see alike.
pub proof fn law_read_after_write(text: Seq<char>, s: Seq<char>, k: Seq<char>, v: Seq<char>, eol: Seq<char>)
    requires
        section_name_ok(s),
        key_name_ok(k),
        value_ok(v),
        eol_ok(eol),
        headers_agree(text, s),
    ensures
        spec_read_ini_value(spec_write_ini(text, s, k, v, eol), s, k) == Some(v),
{
    let ls = lines_of(text);
    lemma_lines_no_nl(text);
    assert forall|i: int| 0 <= i < ls.len() implies no_nl(#[trigger] ls[i]) && header_ok(ls[i], s) by {}
    lemma_written_lines(ls, s, k, v);
    lemma_read_back_lines(write_lines(ls, s, k, v), eol, Seq::empty(), s, k);
}

// ------------------------------------------------------------------------
// What a write leaves alone
// ------------------------------------------------------------------------

/// The entry a write touches: `section.key` up to ASCII case.
pub open spec fn same_entry(s: Seq<char>, k: Seq<char>, s2: Seq<char>, k2: Seq<char>) -> bool {
    eq_ic(s, trim(s2)) && eq_ic(k, trim(k2))
}

/// A `key=value` line the writer emits inside section `s` is no entry of another key.
proof fn lemma_kv_no_hit(k: Seq<char>, v: Seq<char>, cur: Seq<char>, s: Seq<char>, s2: Seq<char>, k2: Seq<char>)
    requires
        key_name_ok(k),
        value_ok(v),
        eq_ic(cur, s),
        !same_entry(s, k, s2, k2),
    ensures
        line_hit(trim(kv_line(k, v)), cur, s2, k2) is None,
        line_state(trim(kv_line(k, v)), cur) == cur,
{
    lemma_kv_line(k, v, cur, s);
}

/// Reading another entry of the writer's lines so far gives what reading the
/// input lines so far gives, and the reader is in the same section in both.
proof fn lemma_write_frame(ls: Seq<Seq<char>>, s: Seq<char>, k: Seq<char>, v: Seq<char>, s2: Seq<char>, k2: Seq<char>)
    requires
        section_name_ok(s),
        key_name_ok(k),
        value_ok(v),
        forall|i: int| 0 <= i < ls.len() ==> no_nl(#[trigger] ls[i]) && header_ok(ls[i], s),
        !same_entry(s, k, s2, k2),
    ensures
        read_state(write_acc(ls, s, k, v).0, Seq::empty()) == read_state(ls, Seq::empty()),
        read_lines(write_acc(ls, s, k, v).0, Seq::empty(), s2, k2) == read_lines(ls, Seq::empty(), s2, k2),
    decreases ls.len(),
{
    let e = Seq::<char>::empty();
    if ls.len() == 0 {
        return;
    }
    let front = ls.drop_last();
    assert forall|i: int| 0 <= i < front.len() implies no_nl(#[trigger] front[i]) && header_ok(front[i], s) by {
        assert(front[i] == ls[i]);
    }
    lemma_write_frame(front, s, k, v, s2, k2);
    lemma_write_inv(front, s, k, v);
    let st = write_acc(front, s, k, v);
    let (out, ins, found, kset) = st;
    let line = ls.last();
    let t = trim(line);
    let kv = kv_line(k, v);
    let rs = read_state(out, e);
    assert(front.push(line) =~= ls);
    assert(write_acc(ls, s, k, v) == write_step(st, line, s, k, v));
    lemma_read_push(front, line, e, s2, k2);
    if is_header(t) {
        let closing = ins && !kset;
        let out1 = if closing { out.push(kv) } else { out };
        if closing {
            lemma_kv_no_hit(k, v, rs, s, s2, k2);
            lemma_read_push(out, kv, e, s2, k2);
        }
        assert(read_state(out1, e) == rs);
        assert(read_lines(out1, e, s2, k2) == read_lines(out, e, s2, k2));
        lemma_read_push(out1, line, e, s2, k2);
    } else if ins && split_once(t, '=') is Some && eq_ic(trim(split_once(t, '=').unwrap().0), k) {
        lemma_kv_no_hit(k, v, rs, s, s2, k2);
        lemma_read_push(out, kv, e, s2, k2);
        assert(line_hit(t, rs, s2, k2) is None);
        assert(line_state(t, rs) == rs);
    } else {
        lemma_read_push(out, line, e, s2, k2);
    }
}

/// Writing `section.key = value` into an INI text leaves every other entry as
/// it reads: another key of any section, or any key of another section
/// (names compared up to ASCII case and surrounding whitespace), reads back as
/// before, for the names, values, line endings and texts of the read-back law.
pub proof fn law_write_keeps_other_entries(
    text: Seq<char>,
    s: Seq<char>,
    k: Seq<char>,
    v: Seq<char>,
    eol: Seq<char>,
    s2: Seq<char>,
    k2: Seq<char>,
)
    requires
        section_name_ok(s),
        key_name_ok(k),
        value_ok(v),
        eol_ok(eol),
        headers_agree(text, s),
        !same_entry(s, k, s2, k2),
    ensures
        spec_read_ini_value(spec_write_ini(text, s, k, v, eol), s2, k2) == spec_read_ini_value(text, s2, k2),
{
    let e = Seq::<char>::empty();
    let ls = lines_of(text);
    lemma_lines_no_nl(text);
    assert forall|i: int| 0 <= i < ls.len() implies no_nl(#[trigger] ls[i]) && header_ok(ls[i], s) by {}
    lemma_write_inv(ls, s, k, v);
    lemma_write_frame(ls, s, k, v, s2, k2);
    let (out, ins, found, kset) = write_acc(ls, s, k, v);
    let kv = kv_line(k, v);
    let w = write_lines(ls, s, k, v);
    let rs = read_state(out, e);
    lemma_kv_line(k, v, rs, s);
    if found {
        if !kset {
            lemma_kv_no_hit(k, v, rs, s, s2, k2);
            lemma_read_push(out, kv, e, s2, k2);
            lemma_no_nl_push(out, kv);
        }
    } else {
        let padded = if out.len() > 0 && trim(out.last()).len() != 0 { out.push(e) } else { out };
        assert(trim(e) == e) by {
            lemma_trim_fixed(e);
        }
        lemma_read_push(out, e, e, s2, k2);
        lemma_no_nl_push(out, e);
        assert(read_lines(padded, e, s2, k2) == read_lines(out, e, s2, k2));
        assert(read_state(padded, e) == rs);
        let sl = section_line(s);
        lemma_trim_fixed(s);
        assert(sl[0] == '[');
        assert(sl.last() == ']');
        lemma_trim_fixed(sl);
        assert(header_inner(sl) =~= s);
        assert forall|j: int| 0 <= j < sl.len() implies sl[j] != '\n' by {
            if 0 < j < sl.len() - 1 {
                assert(sl[j] == s[j - 1]);
            }
        }
        lemma_read_push(padded, sl, e, s2, k2);
        lemma_no_nl_push(padded, sl);
        lemma_lower_idem(s);
        assert(read_state(padded.push(sl), e) == lower(s));
        lemma_kv_no_hit(k, v, lower(s), s, s2, k2);
        lemma_read_push(padded.push(sl), kv, e, s2, k2);
        lemma_no_nl_push(padded.push(sl), kv);
        assert(w == padded.push(sl).push(kv));
    }
    assert(read_lines(w, e, s2, k2) == read_lines(ls, e, s2, k2));
    lemma_read_back_lines(w, eol, e, s2, k2);
}

/// The lines read back from a joined text are the joined lines, up to
/// trimming, with at most a dropped blank last line.
proof fn lemma_reread_trims(w: Seq<Seq<char>>, eol: Seq<char>)
    requires
        w.len() > 0,
        forall|i: int| 0 <= i < w.len() ==> no_nl(#[trigger] w[i]),
        eol_ok(eol),
    ensures
        lines_of(with_final_eol(join(w, eol), eol)).len() <= w.len(),
        forall|i: int| 0 <= i < lines_of(with_final_eol(join(w, eol), eol)).len()
            ==> trim(#[trigger] lines_of(with_final_eol(join(w, eol), eol))[i]) == trim(w[i]),
{
    let t = with_final_eol(join(w, eol), eol);
    if t == join(w, eol) + eol {
        lemma_lines_join(w, eol);
        assert forall|i: int| 0 <= i < lines_of(t).len() implies trim(#[trigger] lines_of(t)[i]) == trim(w[i]) by {
            lemma_trim_strip_cr(w[i]);
        }
    } else {
        assert(t == join(w, eol));
        if w.len() == 1 {
            let e = Seq::<char>::empty();
            lemma_lines_acc_append(e, w[0]);
            assert(e + w[0] =~= t);
            assert(lines_acc(e).1 + w[0] =~= w[0]);
            if w[0].len() > 0 {
                assert(lines_of(t) =~= w);
            } else {
                assert(lines_of(t) =~= Seq::<Seq<char>>::empty());
            }
        } else {
            let front = w.drop_last();
            assert forall|i: int| 0 <= i < front.len() implies no_nl(#[trigger] front[i]) by {
                assert(front[i] == w[i]);
            }
            lemma_lines_join(front, eol);
            let a = join(front, eol) + eol;
            assert(t =~= a + w.last());
            assert(no_nl(w[w.len() - 1]));
            lemma_lines_acc_append(a, w.last());
            let fm = front.map_values(|l: Seq<char>| eol_view(l, eol));
            assert(Seq::<char>::empty() + w.last() =~= w.last());
            assert forall|i: int| 0 <= i < fm.len() implies trim(#[trigger] fm[i]) == trim(w[i]) by {
                lemma_trim_strip_cr(w[i]);
            }
            if w.last().len() > 0 {
                assert(lines_of(t) == fm.push(w.last()));
                assert forall|i: int| 0 <= i < lines_of(t).len() implies trim(#[trigger] lines_of(t)[i]) == trim(w[i]) by {
                    if i < fm.len() {
                        assert(lines_of(t)[i] == fm[i]);
                    }
                }
            } else {
                assert(lines_of(t) == fm);
            }
        }
    }
}

/// A write keeps the headers of a text as the reader and writer see them:
/// a text whose section `s` headers both see alike still has them so after
/// `s` is written to, so a second write into `s` behaves as the first.
pub proof fn lemma_write_keeps_headers_agree(text: Seq<char>, s: Seq<char>, k: Seq<char>, v: Seq<char>, eol: Seq<char>)
    requires
        section_name_ok(s),
        key_name_ok(k),
        value_ok(v),
        eol_ok(eol),
        headers_agree(text, s),
    ensures
        headers_agree(spec_write_ini(text, s, k, v, eol), s),
{
    let ls = lines_of(text);
    lemma_lines_no_nl(text);
    assert forall|i: int| 0 <= i < ls.len() implies no_nl(#[trigger] ls[i]) && header_ok(ls[i], s) by {}
    lemma_written_lines(ls, s, k, v);
    let w = write_lines(ls, s, k, v);
    lemma_reread_trims(w, eol);
    let t = spec_write_ini(text, s, k, v, eol);
    assert forall|i: int| 0 <= i < lines_of(t).len() implies header_ok(#[trigger] lines_of(t)[i], s) by {
        assert(header_ok(w[i], s));
    }
}

} // verus!
