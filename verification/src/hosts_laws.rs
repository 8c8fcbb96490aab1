//! What the `hosts` block editing guarantees across calls: an updated text
//! carries the block with exactly the source's lines, a removal finds it, a
//! text after removal has no block left, a second update with the same source
//! changes nothing, and a file read as UTF-8 is written back in its encoding.
use vstd::prelude::*;

use crate::hosts::{crlf, has_utf8_bom, lf, plain_utf8, spec_decode, spec_encode, spec_hosts_bytes_after_update, spec_normalize_eol, TextEncoding, remove_acc, spec_begin_marker, spec_end_marker, spec_remove_block, spec_source_lines, spec_update_block, update_lines};
use crate::ini_laws::{eol_ok, eol_view, lemma_lines_join, lemma_lines_no_nl, lemma_trim_strip_cr, no_nl};
use vstd::utf8::{char_u32_cast, codepoint_width_3, decode_first_scalar, encode_utf8, encode_utf8_first_scalar};
use crate::muzap::diagnostics::{line_has_domain, outside_acc, spec_outside_block};
use crate::text::{lemma_replace_char_gone, replace_all, contains, ends_with, lower, is_ws, join, lines_of, strip_cr, trim, trim_end, trim_start};

verus! {

/// The marker lines are already trimmed, hold no line feed, and read back unchanged.
proof fn lemma_marker_line(m: Seq<char>, head: Seq<char>, tail: Seq<char>, eol: Seq<char>)
    requires
        no_nl(m),
        eol_ok(eol),
        head == "# --- "@,
        tail == " BEGIN ---"@ || tail == " END ---"@,
    ensures
        trim(head + m + tail) == head + m + tail,
        no_nl(head + m + tail),
        eol_view(head + m + tail, eol) == head + m + tail,
        (head + m + tail).len() > 0,
{
    reveal_strlit("# --- ");
    reveal_strlit(" BEGIN ---");
    reveal_strlit(" END ---");
    let l = head + m + tail;
    assert(l[0] == '#');
    assert(l.last() == '-');
    assert(!is_ws(l[0]));
    assert(trim_start(l) == l);
    assert(trim_end(l) == l);
    assert forall|i: int| 0 <= i < l.len() implies l[i] != '\n' by {
        if i < head.len() {
            assert(l[i] == head[i]);
        } else if i < head.len() + m.len() {
            assert(l[i] == m[i - head.len()]);
        } else {
            assert(l[i] == tail[i - head.len() - m.len()]);
        }
    }
    assert(strip_cr(l) == l);
}

proof fn lemma_begin(m: Seq<char>, eol: Seq<char>)
    requires
        no_nl(m),
        eol_ok(eol),
    ensures
        trim(spec_begin_marker(m)) == spec_begin_marker(m),
        no_nl(spec_begin_marker(m)),
        eol_view(spec_begin_marker(m), eol) == spec_begin_marker(m),
        spec_begin_marker(m).len() > 0,
{
    lemma_marker_line(m, "# --- "@, " BEGIN ---"@, eol);
}

proof fn lemma_end(m: Seq<char>, eol: Seq<char>)
    requires
        no_nl(m),
        eol_ok(eol),
    ensures
        trim(spec_end_marker(m)) == spec_end_marker(m),
        no_nl(spec_end_marker(m)),
        eol_view(spec_end_marker(m), eol) == spec_end_marker(m),
        spec_end_marker(m).len() > 0,
        spec_end_marker(m).last() == '-',
{
    reveal_strlit(" END ---");
    lemma_marker_line(m, "# --- "@, " END ---"@, eol);
}

/// The remover reports a block exactly when some line trims to the begin marker.
proof fn lemma_remove_flag(ls: Seq<Seq<char>>, b: Seq<char>, e: Seq<char>)
    ensures
        remove_acc(ls, b, e).2 <==> exists|i: int| 0 <= i < ls.len() && trim(#[trigger] ls[i]) == b,
    decreases ls.len(),
{
    if ls.len() > 0 {
        let f = ls.drop_last();
        lemma_remove_flag(f, b, e);
        if exists|i: int| 0 <= i < f.len() && trim(#[trigger] f[i]) == b {
            let i = choose|i: int| 0 <= i < f.len() && trim(#[trigger] f[i]) == b;
            assert(ls[i] == f[i]);
        }
        if exists|i: int| 0 <= i < ls.len() && trim(#[trigger] ls[i]) == b {
            let i = choose|i: int| 0 <= i < ls.len() && trim(#[trigger] ls[i]) == b;
            if i < f.len() {
                assert(f[i] == ls[i]);
            }
        }
    }
}

/// The kept lines never trim to the begin marker, and hold no line feed when the input lines do not.
proof fn lemma_remove_kept(ls: Seq<Seq<char>>, b: Seq<char>, e: Seq<char>)
    ensures
        forall|i: int| 0 <= i < remove_acc(ls, b, e).0.len() ==> trim(#[trigger] remove_acc(ls, b, e).0[i]) != b,
        (forall|j: int| 0 <= j < ls.len() ==> no_nl(#[trigger] ls[j])) ==> forall|i: int|
            0 <= i < remove_acc(ls, b, e).0.len() ==> no_nl(#[trigger] remove_acc(ls, b, e).0[i]),
    decreases ls.len(),
{
    if ls.len() > 0 {
        let f = ls.drop_last();
        lemma_remove_kept(f, b, e);
        let prev = remove_acc(f, b, e).0;
        let cur = remove_acc(ls, b, e).0;
        assert forall|i: int| 0 <= i < cur.len() implies trim(#[trigger] cur[i]) != b by {
            if i < prev.len() {
                assert(cur[i] == prev[i]);
            }
        }
        if forall|j: int| 0 <= j < ls.len() ==> no_nl(#[trigger] ls[j]) {
            assert forall|j: int| 0 <= j < f.len() implies no_nl(#[trigger] f[j]) by {
                assert(f[j] == ls[j]);
            }
            assert(no_nl(ls[ls.len() - 1]));
            assert forall|i: int| 0 <= i < cur.len() implies no_nl(#[trigger] cur[i]) by {
                if i < prev.len() {
                    assert(cur[i] == prev[i]);
                }
            }
        }
    }
}

/// Reading a line back does not change what it trims to.
proof fn lemma_eol_view_trim(l: Seq<char>, eol: Seq<char>)
    ensures
        trim(eol_view(l, eol)) == trim(l),
{
    lemma_trim_strip_cr(l);
}

/// The lines of the text a removal leaves: none trims to the begin marker.
proof fn lemma_removed_lines(text: Seq<char>, m: Seq<char>, eol: Seq<char>)
    requires
        eol_ok(eol),
    ensures
        forall|i: int| 0 <= i < lines_of(spec_remove_block(text, m, eol).0).len()
            ==> trim(#[trigger] lines_of(spec_remove_block(text, m, eol).0)[i]) != spec_begin_marker(m),
{
    let b = spec_begin_marker(m);
    let e = spec_end_marker(m);
    let ls = lines_of(text);
    lemma_lines_no_nl(text);
    lemma_remove_kept(ls, b, e);
    let out = remove_acc(ls, b, e).0;
    let joined = join(out, eol);
    let r = spec_remove_block(text, m, eol).0;
    if out.len() == 0 {
        assert(joined == Seq::<char>::empty());
        assert(r == Seq::<char>::empty());
        assert(lines_of(r) =~= Seq::<Seq<char>>::empty());
    } else if joined.len() == 0 {
        assert(r == joined);
        assert(lines_of(r) =~= Seq::<Seq<char>>::empty());
    } else if !ends_with(joined, eol) {
        assert(r == joined + eol);
        lemma_lines_join(out, eol);
        assert(lines_of(r) == out.map_values(|l: Seq<char>| eol_view(l, eol)));
        assert forall|i: int| 0 <= i < lines_of(r).len() implies trim(#[trigger] lines_of(r)[i]) != b by {
            lemma_eol_view_trim(out[i], eol);
        }
    } else {
        assert(r == joined);
        let last = out.last();
        assert(no_nl(out[out.len() - 1]));
        assert(eol.last() == '\n');
        let k = joined.len() - eol.len();
        assert(joined.skip(k) == eol);
        assert(joined.last() == joined.skip(k)[eol.len() - 1]);
        assert(joined.last() == '\n');
        if out.len() == 1 {
            assert(joined == out[0]);
            assert(out[0][out[0].len() - 1] != '\n');
        } else {
            let f = out.drop_last();
            assert(joined == join(f, eol) + eol + last);
            if last.len() > 0 {
                assert(joined.last() == last.last());
                assert(last[last.len() - 1] != '\n');
            }
            assert(last.len() == 0);
            assert(joined =~= join(f, eol) + eol);
            assert forall|j: int| 0 <= j < f.len() implies no_nl(#[trigger] f[j]) by {
                assert(f[j] == out[j]);
            }
            lemma_lines_join(f, eol);
            assert(lines_of(r) == f.map_values(|l: Seq<char>| eol_view(l, eol)));
            assert forall|i: int| 0 <= i < lines_of(r).len() implies trim(#[trigger] lines_of(r)[i]) != b by {
                assert(f[i] == out[i]);
                lemma_eol_view_trim(f[i], eol);
            }
        }
    }
}

/// After a removal, a second removal finds no block: removing a `hosts` block
/// leaves no managed block behind.
pub proof fn law_remove_leaves_no_block(text: Seq<char>, marker: Seq<char>, eol: Seq<char>)
    requires
        eol_ok(eol),
    ensures
        !spec_remove_block(spec_remove_block(text, marker, eol).0, marker, eol).1,
{
    let r = spec_remove_block(text, marker, eol).0;
    lemma_removed_lines(text, marker, eol);
    lemma_remove_flag(lines_of(r), spec_begin_marker(marker), spec_end_marker(marker));
}

/// A trimmed-at-the-end line holds no line feed when the line does not.
proof fn lemma_trim_end_no_nl(l: Seq<char>)
    requires
        no_nl(l),
    ensures
        no_nl(trim_end(l)),
        trim_end(l).len() > 0 ==> !is_ws(trim_end(l).last()),
    decreases l.len(),
{
    if l.len() > 0 && is_ws(l.last()) {
        assert forall|i: int| 0 <= i < l.drop_last().len() implies l.drop_last()[i] != '\n' by {
            assert(l.drop_last()[i] == l[i]);
        }
        lemma_trim_end_no_nl(l.drop_last());
    }
}

/// The block's lines hold no line feed, and read back unchanged.
proof fn lemma_source_lines(ls: Seq<Seq<char>>, sc: bool, eol: Seq<char>)
    requires
        forall|j: int| 0 <= j < ls.len() ==> no_nl(#[trigger] ls[j]),
        eol_ok(eol),
    ensures
        forall|i: int| 0 <= i < spec_source_lines(ls, sc).len() ==> no_nl(#[trigger] spec_source_lines(ls, sc)[i]),
        forall|i: int| 0 <= i < spec_source_lines(ls, sc).len() ==> eol_view(#[trigger] spec_source_lines(ls, sc)[i], eol)
            == spec_source_lines(ls, sc)[i],
    decreases ls.len(),
{
    if ls.len() > 0 {
        let f = ls.drop_last();
        assert forall|j: int| 0 <= j < f.len() implies no_nl(#[trigger] f[j]) by {
            assert(f[j] == ls[j]);
        }
        lemma_source_lines(f, sc, eol);
        assert(no_nl(ls[ls.len() - 1]));
        lemma_trim_end_no_nl(ls.last());
        let prev = spec_source_lines(f, sc);
        let cur = spec_source_lines(ls, sc);
        let t = trim_end(ls.last());
        assert(eol_view(t, eol) == t) by {
            if t.len() > 0 {
                assert(t.last() != '\r');
            }
            assert(strip_cr(t) == t);
        }
        assert(eol_view(Seq::<char>::empty(), eol) == Seq::<char>::empty());
        assert(no_nl(Seq::<char>::empty()));
        assert forall|i: int| 0 <= i < cur.len() implies no_nl(#[trigger] cur[i]) && eol_view(cur[i], eol) == cur[i] by {
            if i < prev.len() {
                assert(cur[i] == prev[i]);
            }
        }
    }
}

/// The lines of an updated text, with the part before the block.
proof fn lemma_update_lines(h: Seq<char>, s: Seq<char>, m: Seq<char>, eol: Seq<char>, sc: bool) -> (pre: Seq<Seq<char>>)
    requires
        no_nl(m),
        eol_ok(eol),
    ensures
        lines_of(spec_update_block(h, s, m, eol, sc)) == pre + seq![spec_begin_marker(m)] + spec_source_lines(lines_of(s), sc)
            + seq![spec_end_marker(m)],
        forall|i: int| 0 <= i < pre.len() ==> trim(#[trigger] pre[i]) != spec_begin_marker(m),
        pre == with_separator(lines_of(spec_remove_block(h, m, eol).0)).map_values(|l: Seq<char>| eol_view(l, eol)),
{
    let b = spec_begin_marker(m);
    let e = spec_end_marker(m);
    lemma_begin(m, eol);
    lemma_end(m, eol);
    let cleaned_text = spec_remove_block(h, m, eol).0;
    let cleaned = lines_of(cleaned_text);
    lemma_lines_no_nl(cleaned_text);
    lemma_removed_lines(h, m, eol);
    let sep = if cleaned.len() > 0 && trim(cleaned.last()).len() != 0 { cleaned.push(Seq::empty()) } else { cleaned };
    lemma_lines_no_nl(s);
    let src = spec_source_lines(lines_of(s), sc);
    lemma_source_lines(lines_of(s), sc, eol);
    let u = update_lines(h, s, m, eol, sc);
    assert(u == sep.push(b) + src + seq![e]);
    assert(trim(Seq::<char>::empty()) == Seq::<char>::empty()) by {
        reveal_with_fuel(trim_start, 1);
        reveal_with_fuel(trim_end, 1);
    }
    assert forall|i: int| 0 <= i < sep.len() implies no_nl(#[trigger] sep[i]) && trim(sep[i]) != b by {
        if i < cleaned.len() {
            assert(sep[i] == cleaned[i]);
        } else {
            assert(sep[i] == Seq::<char>::empty());
        }
    }
    assert forall|i: int| 0 <= i < u.len() implies no_nl(#[trigger] u[i]) by {
        if i < sep.len() {
            assert(u[i] == sep[i]);
        } else if i == sep.len() {
            assert(u[i] == b);
        } else if i < sep.len() + 1 + src.len() {
            assert(u[i] == src[i - sep.len() - 1]);
        } else {
            assert(u[i] == e);
        }
    }
    let joined = join(u, eol);
    assert(u.len() >= 2);
    assert(joined == join(u.drop_last(), eol) + eol + u.last());
    assert(u.last() == e);
    assert(joined.last() == '-');
    assert(!ends_with(joined, eol)) by {
        if ends_with(joined, eol) {
            assert(joined.skip(joined.len() - eol.len()) == eol);
            assert(joined.last() == eol.last());
        }
    }
    lemma_lines_join(u, eol);
    let view = u.map_values(|l: Seq<char>| eol_view(l, eol));
    assert(lines_of(spec_update_block(h, s, m, eol, sc)) == view);
    let pre = sep.map_values(|l: Seq<char>| eol_view(l, eol));
    assert(view =~= pre + seq![b] + src + seq![e]) by {
        assert forall|i: int| 0 <= i < view.len() implies view[i] == (pre + seq![b] + src + seq![e])[i] by {
            if i < sep.len() {
                assert(u[i] == sep[i]);
            } else if i == sep.len() {
                assert(u[i] == b);
            } else if i < sep.len() + 1 + src.len() {
                assert(u[i] == src[i - sep.len() - 1]);
            } else {
                assert(u[i] == e);
            }
        }
    }
    assert forall|i: int| 0 <= i < pre.len() implies trim(#[trigger] pre[i]) != b by {
        lemma_eol_view_trim(sep[i], eol);
    }
    pre
}

/// After an update, the text's lines are: the lines of the text without its
/// block (read back as the line ending gives them), a blank separator line
/// when the last of them is not blank, the begin marker, exactly the source's
/// lines as the block keeps them, and the end marker. The lines outside the
/// block are kept, and the managed block holds the source and nothing else.
pub proof fn law_update_block_content(hosts: Seq<char>, source: Seq<char>, marker: Seq<char>, eol: Seq<char>, semicolon_comments: bool)
    requires
        no_nl(marker),
        eol_ok(eol),
    ensures
        lines_of(spec_update_block(hosts, source, marker, eol, semicolon_comments))
            == with_separator(lines_of(spec_remove_block(hosts, marker, eol).0)).map_values(|l: Seq<char>| eol_view(l, eol))
                + seq![spec_begin_marker(marker)] + spec_source_lines(lines_of(source), semicolon_comments)
                + seq![spec_end_marker(marker)],
        forall|i: int| 0 <= i < lines_of(spec_remove_block(hosts, marker, eol).0).len()
            ==> trim(#[trigger] lines_of(spec_remove_block(hosts, marker, eol).0)[i]) != spec_begin_marker(marker),
{
    let pre = lemma_update_lines(hosts, source, marker, eol, semicolon_comments);
    lemma_removed_lines(hosts, marker, eol);
}

/// After an update, a removal finds the block.
pub proof fn law_update_then_remove_finds_block(hosts: Seq<char>, source: Seq<char>, marker: Seq<char>, eol: Seq<char>, semicolon_comments: bool)
    requires
        no_nl(marker),
        eol_ok(eol),
    ensures
        spec_remove_block(spec_update_block(hosts, source, marker, eol, semicolon_comments), marker, eol).1,
{
    let pre = lemma_update_lines(hosts, source, marker, eol, semicolon_comments);
    let ls = lines_of(spec_update_block(hosts, source, marker, eol, semicolon_comments));
    lemma_begin(marker, eol);
    assert(ls[pre.len() as int] == spec_begin_marker(marker));
    lemma_remove_flag(ls, spec_begin_marker(marker), spec_end_marker(marker));
}

/// The lines kept before the block, with the blank separator line an update
/// puts after them when the last one is not blank.
pub open spec fn with_separator(c: Seq<Seq<char>>) -> Seq<Seq<char>> {
    if c.len() > 0 && trim(c.last()).len() != 0 {
        c.push(Seq::empty())
    } else {
        c
    }
}

/// Lines that never trim to the begin marker pass through the remover unchanged.
proof fn lemma_remove_outside(ls: Seq<Seq<char>>, b: Seq<char>, e: Seq<char>)
    requires
        forall|i: int| 0 <= i < ls.len() ==> trim(#[trigger] ls[i]) != b,
    ensures
        remove_acc(ls, b, e).0 == ls,
        !remove_acc(ls, b, e).1,
    decreases ls.len(),
{
    if ls.len() > 0 {
        let f = ls.drop_last();
        assert forall|i: int| 0 <= i < f.len() implies trim(#[trigger] f[i]) != b by {
            assert(f[i] == ls[i]);
        }
        lemma_remove_outside(f, b, e);
        assert(trim(ls[ls.len() - 1]) != b);
        assert(f.push(ls.last()) =~= ls);
    }
}

/// Inside a block, lines that do not trim to the end marker are dropped and
/// the block stays open.
proof fn lemma_remove_inside(a: Seq<Seq<char>>, t: Seq<Seq<char>>, b: Seq<char>, e: Seq<char>)
    requires
        remove_acc(a, b, e).1,
        forall|j: int| 0 <= j < t.len() ==> trim(#[trigger] t[j]) != e,
    ensures
        remove_acc(a + t, b, e).0 == remove_acc(a, b, e).0,
        remove_acc(a + t, b, e).1,
    decreases t.len(),
{
    if t.len() == 0 {
        assert(a + t =~= a);
    } else {
        let f = t.drop_last();
        assert forall|j: int| 0 <= j < f.len() implies trim(#[trigger] f[j]) != e by {
            assert(f[j] == t[j]);
        }
        lemma_remove_inside(a, f, b, e);
        assert((a + t).drop_last() =~= a + f);
        assert((a + t).last() == t[t.len() - 1]);
    }
}

/// The lines of `ls` joined with `eol` and ended with it read back as `ls`,
/// when each line reads back unchanged.
proof fn lemma_lines_roundtrip(ls: Seq<Seq<char>>, eol: Seq<char>)
    requires
        ls.len() > 0,
        forall|i: int| 0 <= i < ls.len() ==> no_nl(#[trigger] ls[i]),
        forall|i: int| 0 <= i < ls.len() ==> eol_view(#[trigger] ls[i], eol) == ls[i],
        eol_ok(eol),
    ensures
        lines_of(join(ls, eol) + eol) == ls,
{
    lemma_lines_join(ls, eol);
    let v = ls.map_values(|l: Seq<char>| eol_view(l, eol));
    assert(v =~= ls);
}

/// A join ends with the line feed of `eol` exactly when its last line is
/// empty and there is more than one line (lines without line feeds).
proof fn lemma_join_ends(ls: Seq<Seq<char>>, eol: Seq<char>)
    requires
        ls.len() > 0,
        ls.last().len() > 0,
        forall|i: int| 0 <= i < ls.len() ==> no_nl(#[trigger] ls[i]),
        eol_ok(eol),
    ensures
        join(ls, eol).len() > 0,
        !ends_with(join(ls, eol), eol),
{
    let j = join(ls, eol);
    let l = ls.last();
    assert(no_nl(ls[ls.len() - 1]));
    if ls.len() == 1 {
        assert(j == l);
    } else {
        assert(j == join(ls.drop_last(), eol) + eol + l);
    }
    assert(j.len() >= l.len());
    assert(j.last() == l.last()) by {
        if ls.len() > 1 {
            assert(j[j.len() - 1] == l[l.len() - 1]);
        }
    }
    assert(l[l.len() - 1] != '\n');
    if ends_with(j, eol) {
        assert(j.skip(j.len() - eol.len()) == eol);
        assert(j.last() == j.skip(j.len() - eol.len())[eol.len() - 1]);
    }
}

/// Kept lines that read back unchanged and do not end in an empty line
/// after a blank one (or in one empty line alone): joined as the remover
/// joins them and read again, they get the same separator line.
proof fn lemma_separator_reread(c1: Seq<Seq<char>>, eol: Seq<char>)
    requires
        eol_ok(eol),
        forall|i: int| 0 <= i < c1.len() ==> no_nl(#[trigger] c1[i]),
        forall|i: int| 0 <= i < c1.len() ==> eol_view(#[trigger] c1[i], eol) == c1[i],
        !(c1.len() > 0 && c1.last().len() == 0 && (c1.len() == 1 || trim(c1[c1.len() - 2]).len() == 0)),
    ensures
        ({
            let p = with_separator(c1);
            let j = join(p, eol);
            let r2 = if j.len() > 0 && !ends_with(j, eol) { j + eol } else { j };
            with_separator(lines_of(r2)) == p
        }),
{
    let p = with_separator(c1);
    let j = join(p, eol);
    let r2 = if j.len() > 0 && !ends_with(j, eol) { j + eol } else { j };
    assert(eol_view(Seq::<char>::empty(), eol) == Seq::<char>::empty());
    assert(no_nl(Seq::<char>::empty()));
    assert forall|i: int| 0 <= i < p.len() implies no_nl(#[trigger] p[i]) && eol_view(p[i], eol) == p[i] by {
        if i < c1.len() {
            assert(p[i] == c1[i]);
        } else {
            assert(p[i] == Seq::<char>::empty());
        }
    }
    let c2 = lines_of(r2);
    if p.len() == 0 {
        assert(j == Seq::<char>::empty());
        assert(c2 =~= Seq::<Seq<char>>::empty());
    } else if p.last().len() > 0 {
        lemma_join_ends(p, eol);
        assert(r2 == j + eol);
        lemma_lines_roundtrip(p, eol);
        assert(p == c1);
        assert(trim(Seq::<char>::empty()) == Seq::<char>::empty()) by {
            reveal_with_fuel(trim_start, 1);
            reveal_with_fuel(trim_end, 1);
        }
    } else if p.len() == 1 {
        assert(c1.len() == 1 && c1.last().len() == 0);
    } else {
        let f = p.drop_last();
        assert(j == join(f, eol) + eol + p.last());
        assert(j =~= join(f, eol) + eol);
        assert(ends_with(j, eol)) by {
            assert(j.skip(j.len() - eol.len()) =~= eol);
        }
        assert(r2 == join(f, eol) + eol);
        assert forall|i: int| 0 <= i < f.len() implies no_nl(#[trigger] f[i]) && eol_view(f[i], eol) == f[i] by {
            assert(f[i] == p[i]);
        }
        lemma_lines_roundtrip(f, eol);
        assert(c2 == f);
        assert(p.last() =~= Seq::<char>::empty());
        assert(f.push(Seq::empty()) =~= p);
        if !(c1.len() > 0 && trim(c1.last()).len() != 0) {
            assert(p == c1);
            assert(f[f.len() - 1] == c1[c1.len() - 2]);
        }
    }
}

/// The remover applied to an updated text keeps exactly the separated kept
/// lines, when no kept source line trims to the end marker.
proof fn lemma_remove_updated(hosts: Seq<char>, source: Seq<char>, marker: Seq<char>, eol: Seq<char>, sc: bool)
    requires
        no_nl(marker),
        eol_ok(eol),
        forall|i: int| 0 <= i < spec_source_lines(lines_of(source), sc).len()
            ==> trim(#[trigger] spec_source_lines(lines_of(source), sc)[i]) != spec_end_marker(marker),
        forall|i: int| 0 <= i < lines_of(spec_remove_block(hosts, marker, eol).0).len()
            ==> eol_view(#[trigger] lines_of(spec_remove_block(hosts, marker, eol).0)[i], eol)
                == lines_of(spec_remove_block(hosts, marker, eol).0)[i],
    ensures
        remove_acc(lines_of(spec_update_block(hosts, source, marker, eol, sc)), spec_begin_marker(marker), spec_end_marker(marker)).0
            == with_separator(lines_of(spec_remove_block(hosts, marker, eol).0)),
{
    let b = spec_begin_marker(marker);
    let e = spec_end_marker(marker);
    let src = spec_source_lines(lines_of(source), sc);
    let c1 = lines_of(spec_remove_block(hosts, marker, eol).0);
    let p = with_separator(c1);
    lemma_begin(marker, eol);
    lemma_end(marker, eol);
    let pre = lemma_update_lines(hosts, source, marker, eol, sc);
    assert(eol_view(Seq::<char>::empty(), eol) == Seq::<char>::empty());
    assert forall|i: int| 0 <= i < p.len() implies eol_view(#[trigger] p[i], eol) == p[i] by {
        if i < c1.len() {
            assert(p[i] == c1[i]);
        } else {
            assert(p[i] == Seq::<char>::empty());
        }
    }
    assert(pre =~= p);
    let lu = lines_of(spec_update_block(hosts, source, marker, eol, sc));
    lemma_remove_outside(p, b, e);
    let a = p.push(b);
    assert(a.drop_last() =~= p);
    assert(remove_acc(a, b, e) == (p, true, true));
    lemma_remove_inside(a, src, b, e);
    assert(lu =~= (a + src).push(e));
    assert(lu.drop_last() =~= a + src);
    if trim(e) == b {
        reveal_strlit(" BEGIN ---");
        reveal_strlit(" END ---");
        assert(e.len() != b.len());
    }
}

/// Updating a `hosts` text a second time with the same source changes
/// nothing: the block is replaced by itself and no separator line is added.
/// It holds when no kept source line trims to the end marker (which would
/// close the block early), when the lines outside the block read back
/// unchanged, and when they do not end in an empty line after a blank one (or
/// in one empty line alone): the remover does not give back a final empty line.
pub proof fn law_update_is_idempotent(hosts: Seq<char>, source: Seq<char>, marker: Seq<char>, eol: Seq<char>, semicolon_comments: bool)
    requires
        no_nl(marker),
        eol_ok(eol),
        forall|i: int| 0 <= i < spec_source_lines(lines_of(source), semicolon_comments).len()
            ==> trim(#[trigger] spec_source_lines(lines_of(source), semicolon_comments)[i]) != spec_end_marker(marker),
        forall|i: int| 0 <= i < lines_of(spec_remove_block(hosts, marker, eol).0).len()
            ==> eol_view(#[trigger] lines_of(spec_remove_block(hosts, marker, eol).0)[i], eol)
                == lines_of(spec_remove_block(hosts, marker, eol).0)[i],
        !({
            let c = lines_of(spec_remove_block(hosts, marker, eol).0);
            c.len() > 0 && c.last().len() == 0 && (c.len() == 1 || trim(c[c.len() - 2]).len() == 0)
        }),
    ensures
        spec_update_block(spec_update_block(hosts, source, marker, eol, semicolon_comments), source, marker, eol, semicolon_comments)
            == spec_update_block(hosts, source, marker, eol, semicolon_comments),
{
    let u = spec_update_block(hosts, source, marker, eol, semicolon_comments);
    let c1 = lines_of(spec_remove_block(hosts, marker, eol).0);
    lemma_lines_no_nl(spec_remove_block(hosts, marker, eol).0);
    lemma_remove_updated(hosts, source, marker, eol, semicolon_comments);
    lemma_separator_reread(c1, eol);
    assert(update_lines(u, source, marker, eol, semicolon_comments) == update_lines(hosts, source, marker, eol, semicolon_comments));
}

/// The remover reports a block exactly when some line of the text trims to
/// the begin marker.
pub proof fn law_remove_reports_block(text: Seq<char>, marker: Seq<char>, eol: Seq<char>)
    ensures
        spec_remove_block(text, marker, eol).1 <==> exists|i: int|
            0 <= i < lines_of(text).len() && trim(#[trigger] lines_of(text)[i]) == spec_begin_marker(marker),
{
    lemma_remove_flag(lines_of(text), spec_begin_marker(marker), spec_end_marker(marker));
}

/// Removing the block after an update gives what removing it from the text
/// before the update gives, and reports a block: the update adds nothing
/// outside its block. It holds when no kept source line trims to the end
/// marker (which would close the block early), when the text left after the
/// removal is empty or its own lines joined with `eol` and ended with it (no
/// stray carriage return, no lone CR), and when that text does not end in an
/// empty line (the separator logic then drops it).
pub proof fn law_remove_undoes_update(hosts: Seq<char>, source: Seq<char>, marker: Seq<char>, eol: Seq<char>, semicolon_comments: bool)
    requires
        no_nl(marker),
        eol_ok(eol),
        forall|i: int| 0 <= i < spec_source_lines(lines_of(source), semicolon_comments).len()
            ==> trim(#[trigger] spec_source_lines(lines_of(source), semicolon_comments)[i]) != spec_end_marker(marker),
        ({
            let r1 = spec_remove_block(hosts, marker, eol).0;
            let c1 = lines_of(r1);
            &&& r1.len() == 0 || r1 == join(c1, eol) + eol
            &&& c1.len() == 0 || c1.last().len() != 0
        }),
    ensures
        spec_remove_block(spec_update_block(hosts, source, marker, eol, semicolon_comments), marker, eol)
            == (spec_remove_block(hosts, marker, eol).0, true),
{
    let r1 = spec_remove_block(hosts, marker, eol).0;
    let c1 = lines_of(r1);
    lemma_lines_no_nl(r1);
    if r1.len() > 0 {
        assert(c1.len() > 0) by {
            // otherwise the text would be a bare line ending, which reads as one empty line
            if c1.len() == 0 {
                let one = seq![Seq::<char>::empty()];
                lemma_lines_join(one, eol);
                assert(join(one, eol) + eol =~= r1);
            }
        }
        lemma_lines_join(c1, eol);
        let m = c1.map_values(|l: Seq<char>| eol_view(l, eol));
        assert(lines_of(join(c1, eol) + eol) == m);
        assert forall|i: int| 0 <= i < c1.len() implies eol_view(#[trigger] c1[i], eol) == c1[i] by {
            assert(m[i] == c1[i]);
        }
    }
    lemma_remove_updated(hosts, source, marker, eol, semicolon_comments);
    law_update_then_remove_finds_block(hosts, source, marker, eol, semicolon_comments);
    let p = with_separator(c1);
    let j = join(p, eol);
    let r2 = spec_remove_block(spec_update_block(hosts, source, marker, eol, semicolon_comments), marker, eol).0;
    assert(r2 == if j.len() > 0 && !ends_with(j, eol) { j + eol } else { j });
    if c1.len() == 0 {
        assert(j == Seq::<char>::empty());
    } else if trim(c1.last()).len() != 0 {
        assert(p == c1.push(Seq::empty()));
        assert(p.drop_last() =~= c1);
        assert(j == join(c1, eol) + eol + Seq::<char>::empty());
        assert(j =~= join(c1, eol) + eol);
        assert(ends_with(j, eol)) by {
            assert(j.skip(j.len() - eol.len()) =~= eol);
        }
    } else {
        assert(p == c1);
        assert forall|i: int| 0 <= i < c1.len() implies no_nl(#[trigger] c1[i]) by {}
        lemma_join_ends(c1, eol);
    }
}

/// The UTF-8 bytes of a text start with a byte order mark only when the
/// text starts with U+FEFF, and never with a UTF-16 one.
proof fn lemma_utf8_no_bom(text: Seq<char>)
    requires
        text.len() > 0 ==> text[0] != '\u{FEFF}',
    ensures
        plain_utf8(encode_utf8(text)),
{
    broadcast use vstd::utf8::encode_utf8_valid_utf8;

    let b = encode_utf8(text);
    if text.len() > 0 {
        encode_utf8_first_scalar(text);
        assert(b[0] != 0xFFu8 && b[0] != 0xFEu8);
        if has_utf8_bom(b) {
            assert(codepoint_width_3(0xEFu8, 0xBBu8, 0xBFu8) == 0xFEFFu32) by (bit_vector);
            assert(decode_first_scalar(b) == 0xFEFFu32);
            char_u32_cast(text[0], 0xFEFFu32);
            char_u32_cast('\u{FEFF}', 0xFEFFu32);
            assert(false);
        }
    }
}

/// A text written in UTF-8, with or without a byte order mark, reads back as
/// the same text in the same encoding: a `hosts` file kept in UTF-8 keeps its
/// encoding and its text across a rewrite. (The UTF-16 encodings do not: their
/// encoder writes UTF-8 after the byte order mark.)
pub proof fn law_utf8_text_reads_back(text: Seq<char>, enc: TextEncoding)
    requires
        enc == TextEncoding::Utf8Bom || enc == TextEncoding::Utf8NoBom,
        text.len() > 0 ==> text[0] != '\u{FEFF}',
    ensures
        spec_decode(spec_encode(text, enc)) == (enc, text),
{
    broadcast use vstd::utf8::encode_utf8_decode_utf8;

    let u = encode_utf8(text);
    lemma_utf8_no_bom(text);
    if enc == TextEncoding::Utf8Bom {
        let b = seq![0xEFu8, 0xBBu8, 0xBFu8] + u;
        assert(b.skip(3) =~= u);
        assert(has_utf8_bom(b));
    }
}

/// Updating the block of a `hosts` file read as UTF-8 (with or without a
/// byte order mark) writes bytes that read back in the same encoding, as the
/// updated text with its line endings made uniform.
pub proof fn law_update_keeps_utf8_encoding(bytes: Seq<u8>, source: Seq<char>, marker: Seq<char>, semicolon_comments: bool)
    requires
        spec_decode(bytes).0 == TextEncoding::Utf8Bom || spec_decode(bytes).0 == TextEncoding::Utf8NoBom,
        ({
            let text = spec_decode(bytes).1;
            let eol = if contains(text, crlf()) { crlf() } else { lf() };
            let out = spec_normalize_eol(spec_update_block(text, source, marker, eol, semicolon_comments), eol);
            out.len() > 0 ==> out[0] != '\u{FEFF}'
        }),
    ensures
        ({
            let text = spec_decode(bytes).1;
            let eol = if contains(text, crlf()) { crlf() } else { lf() };
            spec_decode(spec_hosts_bytes_after_update(bytes, source, marker, semicolon_comments)) == (
                spec_decode(bytes).0,
                spec_normalize_eol(spec_update_block(text, source, marker, eol, semicolon_comments), eol),
            )
        }),
{
    let (enc, text) = spec_decode(bytes);
    let eol = if contains(text, crlf()) { crlf() } else { lf() };
    law_utf8_text_reads_back(spec_normalize_eol(spec_update_block(text, source, marker, eol, semicolon_comments), eol), enc);
}

/// Lines that mention no domain never make the scan report one.
proof fn lemma_outside_clean(ls: Seq<Seq<char>>, b: Seq<char>, e: Seq<char>, domains: Seq<Seq<char>>)
    requires
        forall|i: int| 0 <= i < ls.len() ==> !line_has_domain(lower(trim(#[trigger] ls[i])), domains),
    ensures
        !outside_acc(ls, b, e, domains).1,
    decreases ls.len(),
{
    if ls.len() > 0 {
        let f = ls.drop_last();
        assert forall|i: int| 0 <= i < f.len() implies !line_has_domain(lower(trim(#[trigger] f[i])), domains) by {
            assert(f[i] == ls[i]);
        }
        lemma_outside_clean(f, b, e, domains);
        assert(!line_has_domain(lower(trim(ls[ls.len() - 1])), domains));
    }
}

/// Inside the block, lines that do not close it are not reported.
proof fn lemma_outside_inside(a: Seq<Seq<char>>, t: Seq<Seq<char>>, b: Seq<char>, e: Seq<char>, domains: Seq<Seq<char>>)
    requires
        outside_acc(a, b, e, domains) == (true, false),
        forall|j: int| 0 <= j < t.len() ==> lower(trim(#[trigger] t[j])) != e,
    ensures
        outside_acc(a + t, b, e, domains) == (true, false),
    decreases t.len(),
{
    if t.len() == 0 {
        assert(a + t =~= a);
    } else {
        let f = t.drop_last();
        assert forall|j: int| 0 <= j < f.len() implies lower(trim(#[trigger] f[j])) != e by {
            assert(f[j] == t[j]);
        }
        lemma_outside_inside(a, f, b, e, domains);
        assert((a + t).drop_last() =~= a + f);
        assert((a + t).last() == t[t.len() - 1]);
    }
}

/// The entries MuZap writes into its own `hosts` block are not reported as
/// lying outside it: after an update, the check for domains outside the
/// managed block (markers compared up to ASCII case) finds none when the
/// lines kept outside the block mention none, whatever the block holds, as
/// long as no source line reads as the end marker.
pub proof fn law_managed_entries_not_reported(
    hosts: Seq<char>,
    source: Seq<char>,
    marker: Seq<char>,
    eol: Seq<char>,
    semicolon_comments: bool,
    domains: Seq<Seq<char>>,
)
    requires
        no_nl(marker),
        eol_ok(eol),
        forall|i: int| 0 <= i < domains.len() ==> (#[trigger] domains[i]).len() > 0,
        forall|i: int| 0 <= i < lines_of(spec_remove_block(hosts, marker, eol).0).len()
            ==> !line_has_domain(lower(trim(#[trigger] lines_of(spec_remove_block(hosts, marker, eol).0)[i])), domains),
        forall|i: int| 0 <= i < spec_source_lines(lines_of(source), semicolon_comments).len()
            ==> lower(trim(#[trigger] spec_source_lines(lines_of(source), semicolon_comments)[i])) != lower(spec_end_marker(marker)),
    ensures
        !spec_outside_block(spec_update_block(hosts, source, marker, eol, semicolon_comments), domains, marker),
{
    reveal_strlit("# --- ");
    reveal_strlit(" BEGIN ---");
    reveal_strlit(" END ---");
    reveal_strlit(" begin ---");
    reveal_strlit(" end ---");
    let b = spec_begin_marker(marker);
    let e = spec_end_marker(marker);
    let lb = lower("# --- "@ + marker + " begin ---"@);
    let le = lower("# --- "@ + marker + " end ---"@);
    assert(lower(b) =~= lb);
    assert(lower(e) =~= le);
    assert(lb.len() != le.len());
    lemma_begin(marker, eol);
    lemma_end(marker, eol);
    let src = spec_source_lines(lines_of(source), semicolon_comments);
    let c1 = lines_of(spec_remove_block(hosts, marker, eol).0);
    let pre = with_separator(c1).map_values(|l: Seq<char>| eol_view(l, eol));
    law_update_block_content(hosts, source, marker, eol, semicolon_comments);
    let lu = lines_of(spec_update_block(hosts, source, marker, eol, semicolon_comments));
    assert(lu == pre + seq![b] + src + seq![e]);
    // the kept lines mention no domain
    assert(trim(Seq::<char>::empty()) == Seq::<char>::empty()) by {
        reveal_with_fuel(trim_start, 1);
        reveal_with_fuel(trim_end, 1);
    }
    assert(!line_has_domain(lower(Seq::<char>::empty()), domains)) by {
        if line_has_domain(lower(Seq::<char>::empty()), domains) {
            let k = choose|k: int| 0 <= k < domains.len() && contains(lower(Seq::<char>::empty()), lower(#[trigger] domains[k]));
            assert(lower(domains[k]).len() > 0);
        }
    }
    assert forall|i: int| 0 <= i < pre.len() implies !line_has_domain(lower(trim(#[trigger] pre[i])), domains) by {
        let w = with_separator(c1);
        lemma_eol_view_trim(w[i], eol);
        if i < c1.len() {
            assert(w[i] == c1[i]);
        } else {
            assert(w[i] == Seq::<char>::empty());
        }
    }
    lemma_outside_clean(pre, lb, le, domains);
    // the begin marker opens the block
    let a = pre.push(b);
    assert(a.drop_last() =~= pre);
    assert(outside_acc(a, lb, le, domains) == (true, false));
    // the source lines stay inside
    assert forall|j: int| 0 <= j < src.len() implies lower(trim(#[trigger] src[j])) != le by {}
    lemma_outside_inside(a, src, lb, le, domains);
    // the end marker closes it
    assert(lu =~= (a + src).push(e));
    assert(lu.drop_last() =~= a + src);
}

/// A text written with LF line endings holds no carriage return: CRLF and
/// lone CR endings both become LF.
pub proof fn law_lf_text_has_no_cr(text: Seq<char>)
    ensures
        forall|i: int| 0 <= i < spec_normalize_eol(text, lf()).len() ==> spec_normalize_eol(text, lf())[i] != '\r',
{
    let a = replace_all(text, crlf(), lf());
    lemma_replace_char_gone(a, '\r', lf());
}

} // verus!
