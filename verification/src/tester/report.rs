//! The tester's report: the lines of the saved report and of the analytics
//! printed at the end of a run. Names are listed by name; long names are cut
//! to the column's width.
use vstd::prelude::*;

use crate::fmt::{decimal, decimal_chars, number_right, pad_left, pad_right, pad_right_chars, repeat, repeat_chars};
use crate::tester::analytics::{at_least_as_good, spec_ok_score, Analytics, StrategyAnalytics};
use crate::tester::checker::{HttpToken, TargetResult};
use crate::tester::ui::TestType;
use crate::tester::RunResult;
use crate::text::{append_chars, chars_of, string_from, string_views, to_string};

verus! {

// ------------------------------------------------------------------------
// Order by name
// ------------------------------------------------------------------------

/// `a <= b` as `str` orders them (by code point, which is UTF-8 byte order).
pub open spec fn name_le(a: Seq<char>, b: Seq<char>) -> bool
    decreases a.len(),
{
    if a.len() == 0 {
        true
    } else if b.len() == 0 {
        false
    } else if a[0] < b[0] {
        true
    } else if a[0] > b[0] {
        false
    } else {
        name_le(a.drop_first(), b.drop_first())
    }
}

proof fn lemma_name_le_total(a: Seq<char>, b: Seq<char>)
    ensures
        name_le(a, b) || name_le(b, a),
    decreases a.len(),
{
    if a.len() > 0 && b.len() > 0 && a[0] == b[0] {
        lemma_name_le_total(a.drop_first(), b.drop_first());
    }
}

proof fn lemma_name_le_trans(a: Seq<char>, b: Seq<char>, c: Seq<char>)
    requires
        name_le(a, b),
        name_le(b, c),
    ensures
        name_le(a, c),
    decreases a.len(),
{
    if a.len() > 0 && b.len() > 0 && c.len() > 0 && a[0] == b[0] && b[0] == c[0] {
        lemma_name_le_trans(a.drop_first(), b.drop_first(), c.drop_first());
    }
}

proof fn lemma_name_le_antisym(a: Seq<char>, b: Seq<char>)
    requires
        name_le(a, b),
        name_le(b, a),
    ensures
        a == b,
    decreases a.len(),
{
    if a.len() > 0 && b.len() > 0 {
        lemma_name_le_antisym(a.drop_first(), b.drop_first());
        assert(a =~= seq![a[0]] + a.drop_first());
        assert(b =~= seq![b[0]] + b.drop_first());
    }
}

proof fn lemma_name_le_prefix(a: Seq<char>, b: Seq<char>)
    requires
        a.len() <= b.len(),
        b.take(a.len() as int) == a,
    ensures
        name_le(a, b),
    decreases a.len(),
{
    if a.len() > 0 {
        assert(b[0] == b.take(a.len() as int)[0]);
        assert(b.drop_first().take(a.drop_first().len() as int) =~= a.drop_first());
        lemma_name_le_prefix(a.drop_first(), b.drop_first());
    }
}

/// Names are listed as `str` orders them: a total order (any two compare,
/// only equal names compare both ways, and it chains), in which a name comes
/// before every longer name it begins, and the first differing character
/// decides, the smaller code point first.
pub proof fn law_name_order(a: Seq<char>, b: Seq<char>, c: Seq<char>, k: int)
    ensures
        name_le(a, b) || name_le(b, a),
        name_le(a, b) && name_le(b, a) ==> a == b,
        name_le(a, b) && name_le(b, c) ==> name_le(a, c),
        a.len() <= b.len() && b.take(a.len() as int) == a ==> name_le(a, b),
        0 <= k < a.len() && k < b.len() && a.take(k) == b.take(k) && a[k] < b[k] ==> name_le(a, b) && !name_le(b, a),
{
    lemma_name_le_total(a, b);
    if name_le(a, b) && name_le(b, a) {
        lemma_name_le_antisym(a, b);
    }
    if name_le(a, b) && name_le(b, c) {
        lemma_name_le_trans(a, b, c);
    }
    if a.len() <= b.len() && b.take(a.len() as int) == a {
        lemma_name_le_prefix(a, b);
    }
    if 0 <= k < a.len() && k < b.len() && a.take(k) == b.take(k) && a[k] < b[k] {
        lemma_name_le_common(a, b, k);
        assert(a.skip(k)[0] == a[k] && b.skip(k)[0] == b[k]);
    }
}

/// A common beginning does not change how two names compare.
proof fn lemma_name_le_common(a: Seq<char>, b: Seq<char>, k: int)
    requires
        0 <= k <= a.len(),
        k <= b.len(),
        a.take(k) == b.take(k),
    ensures
        name_le(a, b) == name_le(a.skip(k), b.skip(k)),
        name_le(b, a) == name_le(b.skip(k), a.skip(k)),
    decreases k,
{
    if k > 0 {
        assert(a[0] == a.take(k)[0] && b[0] == b.take(k)[0]);
        assert(a.drop_first().take(k - 1) =~= a.take(k).drop_first());
        assert(b.drop_first().take(k - 1) =~= b.take(k).drop_first());
        lemma_name_le_common(a.drop_first(), b.drop_first(), k - 1);
        assert(a.drop_first().skip(k - 1) =~= a.skip(k));
        assert(b.drop_first().skip(k - 1) =~= b.skip(k));
    } else {
        assert(a.skip(0) =~= a);
        assert(b.skip(0) =~= b);
    }
}

fn name_le_exec(a: &[char], b: &[char]) -> (r: bool)
    ensures
        r == name_le(a@, b@),
{
    let mut i: usize = 0;
    assert(a@.skip(0) =~= a@);
    assert(b@.skip(0) =~= b@);
    while i < a.len() && i < b.len()
        invariant
            i <= a.len(),
            i <= b.len(),
            name_le(a@, b@) == name_le(a@.skip(i as int), b@.skip(i as int)),
        decreases a.len() - i,
    {
        let x = a[i];
        let y = b[i];
        if x < y {
            return true;
        }
        if x > y {
            return false;
        }
        assert(a@.skip(i as int).drop_first() =~= a@.skip(i + 1));
        assert(b@.skip(i as int).drop_first() =~= b@.skip(i + 1));
        i = i + 1;
    }
    i == a.len()
}

/// `order` lists every entry once, by name; entries of the same name keep
/// their order (a stable sort).
pub open spec fn sorted_order(a: Seq<(String, StrategyAnalytics)>, order: Seq<usize>) -> bool {
    &&& order.len() == a.len()
    &&& forall|k: int| 0 <= k < order.len() ==> order[k] < a.len()
    &&& forall|k: int, l: int| 0 <= k < l < order.len() ==> order[k] != order[l]
    &&& forall|k: int, l: int| 0 <= k < l < order.len() ==> name_le(#[trigger] a[order[k] as int].0@, #[trigger] a[order[l] as int].0@)
    &&& forall|k: int, l: int| 0 <= k < l < order.len() && #[trigger] a[order[k] as int].0@ == #[trigger] a[order[l] as int].0@
        ==> order[k] < order[l]
}

/// The positions of the entries in name order (`sort_by_key` on the name).
pub fn sort_by_name(a: &Analytics) -> (order: Vec<usize>)
    ensures
        sorted_order(a@, order@),
{
    let mut order: Vec<usize> = Vec::new();
    let mut i: usize = 0;
    while i < a.len()
        invariant
            i <= a.len(),
            order@.len() == i,
            forall|k: int| 0 <= k < order@.len() ==> order@[k] < i,
            forall|k: int, l: int| 0 <= k < l < order@.len() ==> order@[k] != order@[l],
            forall|k: int, l: int| 0 <= k < l < order@.len() ==> name_le(#[trigger] a@[order@[k] as int].0@, #[trigger] a@[order@[l] as int].0@),
            forall|k: int, l: int| 0 <= k < l < order@.len() && #[trigger] a@[order@[k] as int].0@ == #[trigger] a@[order@[l] as int].0@
                ==> order@[k] < order@[l],
        decreases a.len() - i,
    {
        let name = chars_of(a[i].0.as_str());
        // the first position whose name is greater than the new one
        let mut j: usize = 0;
        while j < order.len() && name_le_exec(&chars_of(a[order[j]].0.as_str()), &name)
            invariant
                j <= order@.len() == i,
                name@ == a@[i as int].0@,
                forall|k: int| 0 <= k < j ==> name_le(#[trigger] a@[order@[k] as int].0@, name@),
                forall|k: int| 0 <= k < order@.len() ==> order@[k] < i,
                i < a.len(),
            decreases order.len() - j,
        {
            j = j + 1;
        }
        let p = j;
        let ghost before = order@;
        proof {
            if p < before.len() {
                assert(!name_le(a@[before[p as int] as int].0@, name@));
                lemma_name_le_total(a@[before[p as int] as int].0@, name@);
                assert forall|k: int| p <= k < before.len() implies name_le(name@, #[trigger] a@[before[k] as int].0@) by {
                    if k > p {
                        assert(name_le(a@[before[p as int] as int].0@, a@[before[k] as int].0@));
                        lemma_name_le_trans(name@, a@[before[p as int] as int].0@, a@[before[k] as int].0@);
                    }
                }
            }
        }
        order.insert(p, i);
        assert(order@ == before.insert(p as int, i));
        assert forall|k: int, l: int| 0 <= k < l < order@.len() implies name_le(#[trigger] a@[order@[k] as int].0@, #[trigger] a@[order@[l] as int].0@) by {
            if k < p && l < p {
                assert(order@[k] == before[k] && order@[l] == before[l]);
            } else if k < p && l == p {
                assert(order@[k] == before[k]);
            } else if k < p && l > p {
                assert(order@[k] == before[k] && order@[l] == before[l - 1]);
            } else if k == p {
                assert(order@[l] == before[l - 1]);
            } else {
                assert(order@[k] == before[k - 1] && order@[l] == before[l - 1]);
            }
        }
        assert forall|k: int, l: int| 0 <= k < l < order@.len() implies order@[k] != order@[l] by {
            if k < p && l < p {
                assert(order@[k] == before[k] && order@[l] == before[l]);
            } else if k < p && l == p {
                assert(order@[k] == before[k]);
            } else if k < p && l > p {
                assert(order@[k] == before[k] && order@[l] == before[l - 1]);
            } else if k == p {
                assert(order@[l] == before[l - 1]);
            } else {
                assert(order@[k] == before[k - 1] && order@[l] == before[l - 1]);
            }
        }
        proof {
            // the entries after the insertion point all have greater names
            assert forall|k: int| p <= k < before.len() implies a@[before[k] as int].0@ != name@ by {
                lemma_name_le_total(name@, name@);
                if k > p {
                    assert(name_le(a@[before[p as int] as int].0@, a@[before[k] as int].0@));
                }
            }
        }
        assert forall|k: int, l: int| 0 <= k < l < order@.len() && #[trigger] a@[order@[k] as int].0@ == #[trigger] a@[order@[l] as int].0@
            implies order@[k] < order@[l] by {
            if k < p && l < p {
                assert(order@[k] == before[k] && order@[l] == before[l]);
            } else if k < p && l == p {
                assert(order@[k] == before[k]);
            } else if k < p && l > p {
                assert(order@[k] == before[k] && order@[l] == before[l - 1]);
            } else if k == p {
                assert(order@[l] == before[l - 1]);
            } else {
                assert(order@[k] == before[k - 1] && order@[l] == before[l - 1]);
            }
        }
        assert forall|k: int| 0 <= k < order@.len() implies order@[k] < i + 1 by {
            if k < p {
                assert(order@[k] == before[k]);
            } else if k > p {
                assert(order@[k] == before[k - 1]);
            }
        }
        i = i + 1;
    }
    order
}

// ------------------------------------------------------------------------
// Cutting names to a width
// ------------------------------------------------------------------------

/// The UTF-8 length of a character.
pub open spec fn utf8_len_c(c: char) -> nat {
    if (c as u32) < 0x80 {
        1
    } else if (c as u32) < 0x800 {
        2
    } else if (c as u32) < 0x10000 {
        3
    } else {
        4
    }
}

/// The UTF-8 length of a string (`str::len`).
pub open spec fn utf8_len(s: Seq<char>) -> nat
    decreases s.len(),
{
    if s.len() == 0 {
        0
    } else {
        utf8_len(s.drop_last()) + utf8_len_c(s.last())
    }
}

/// `n` bytes fall on a character boundary of `s`: some prefix is exactly `n` bytes long.
pub open spec fn is_boundary(s: Seq<char>, n: nat) -> bool {
    exists|k: int| 0 <= k <= s.len() && utf8_len(#[trigger] s.take(k)) == n
}

/// `truncate(s, max)` as the report writes names: the name when it fits in
/// `max` bytes, else its first `max - 3` bytes and `...`. (Cutting inside a
/// character is not possible; the caller keeps to names where it does not happen.)
pub open spec fn spec_truncate(s: Seq<char>, max: nat, cut: Seq<char>) -> Seq<char> {
    if utf8_len(s) <= max { s } else { cut + "..."@ }
}

proof fn lemma_utf8_prefix_mono(s: Seq<char>, k: int, l: int)
    requires
        0 <= k <= l <= s.len(),
    ensures
        utf8_len(s.take(k)) <= utf8_len(s.take(l)),
        k < l ==> utf8_len(s.take(k)) < utf8_len(s.take(l)),
    decreases l - k,
{
    if k < l {
        lemma_utf8_prefix_mono(s, k, l - 1);
        assert(s.take(l).drop_last() =~= s.take(l - 1));
    }
}

fn utf8_len_char(c: char) -> (r: usize)
    ensures
        r == utf8_len_c(c),
{
    let v = c as u32;
    if v < 0x80 {
        1
    } else if v < 0x800 {
        2
    } else if v < 0x10000 {
        3
    } else {
        4
    }
}

/// The name cut to `max` bytes for a report column.
pub fn truncate(s: &str, max: usize) -> (r: String)
    requires
        3 <= max <= usize::MAX - 4,
        utf8_len(s@) <= max || is_boundary(s@, (max - 3) as nat),
    ensures
        utf8_len(s@) <= max ==> r@ == s@,
        utf8_len(s@) > max ==> exists|k: int|
            0 <= k <= s@.len() && utf8_len(s@.take(k)) == max - 3 && r@ == spec_truncate(s@, max as nat, #[trigger] s@.take(k)),
{
    let v = chars_of(s);
    let n = max - 3;
    let mut bytes: usize = 0;
    let mut i: usize = 0;
    let mut cut: Option<usize> = if n == 0 { Some(0) } else { None };
    assert(v@.take(0) =~= Seq::<char>::empty());
    while i < v.len() && bytes <= max
        invariant
            i <= v.len(),
            v@ == s@,
            n == max - 3,
            max <= usize::MAX - 4,
            bytes == utf8_len(v@.take(i as int)),
            bytes <= max + 4,
            cut matches Some(c) ==> c <= i && utf8_len(v@.take(c as int)) == n,
            cut is None ==> forall|c: int| 0 <= c <= i ==> utf8_len(#[trigger] v@.take(c)) != n,
        decreases v.len() - i,
    {
        assert(v@.take(i + 1).drop_last() =~= v@.take(i as int));
        bytes = bytes + utf8_len_char(v[i]);
        i = i + 1;
        if bytes == n && cut.is_none() {
            cut = Some(i);
        }
    }
    if i == v.len() && bytes <= max {
        assert(v@.take(v@.len() as int) =~= v@);
        return to_string(s);
    }
    proof {
        if i < v.len() {
            lemma_utf8_prefix_mono(v@, i as int, v@.len() as int);
        }
        assert(v@.take(v@.len() as int) =~= v@);
    }
    let c = match cut {
        Some(c) => c,
        None => {
            proof {
                let kk = choose|kk: int| 0 <= kk <= s@.len() && utf8_len(#[trigger] s@.take(kk)) == n;
                if kk > i {
                    lemma_utf8_prefix_mono(v@, i as int, kk);
                }
                assert(false);
            }
            0
        },
    };
    let mut out = crate::text::slice_of(&v, 0, c);
    assert(out@ =~= s@.take(c as int));
    append_chars(&mut out, &chars_of("..."));
    string_from(&out)
}

/// A name as the tables show it: whole when it fits in 32 bytes, else its
/// first 29 bytes and `...`.
pub open spec fn cut32(s: Seq<char>) -> Seq<char> {
    if utf8_len(s) <= 32 {
        s
    } else {
        s.take(choose|k: int| 0 <= k <= s.len() && utf8_len(#[trigger] s.take(k)) == 29) + "..."@
    }
}

/// A name the tables can show: it fits, or 29 bytes end on a character boundary.
pub open spec fn cuttable(s: Seq<char>) -> bool {
    utf8_len(s) <= 32 || is_boundary(s, 29)
}

/// The name as the tables show it.
pub fn truncate_name(s: &str) -> (r: String)
    requires
        cuttable(s@),
    ensures
        r@ == cut32(s@),
{
    let r = truncate(s, 32);
    proof {
        if utf8_len(s@) > 32 {
            let k = choose|k: int| 0 <= k <= s@.len() && utf8_len(s@.take(k)) == 29 && r@ == spec_truncate(s@, 32, #[trigger] s@.take(k));
            let kk = choose|kk: int| 0 <= kk <= s@.len() && utf8_len(#[trigger] s@.take(kk)) == 29;
            if k < kk {
                lemma_utf8_prefix_mono(s@, k, kk);
            } else if k > kk {
                lemma_utf8_prefix_mono(s@, kk, k);
            }
        }
    }
    r
}

// ------------------------------------------------------------------------
// Lines
// ------------------------------------------------------------------------

/// `{:?}` of a test type.
pub open spec fn debug_type(t: TestType) -> Seq<char> {
    match t {
        TestType::Standard => "Standard"@,
        TestType::Dpi => "Dpi"@,
    }
}

/// ` label:status` for each token.
pub open spec fn tokens_text(toks: Seq<HttpToken>) -> Seq<char>
    decreases toks.len(),
{
    if toks.len() == 0 {
        Seq::empty()
    } else {
        tokens_text(toks.drop_last()) + " "@ + toks.last().label@ + ":"@ + toks.last().status@
    }
}

pub open spec fn ping_text(p: Option<u64>) -> Seq<char> {
    match p {
        Some(ms) => decimal(ms as nat) + " мс"@,
        None => "Таймаут"@,
    }
}

/// A target's line in the report.
pub open spec fn std_result_line(t: TargetResult) -> Seq<char> {
    "  "@ + pad_right(t.name@, 36) + (if t.is_url { tokens_text(t.http_tokens@) + " |"@ } else { Seq::empty() }) + " Ping: "@
        + ping_text(t.ping_ms)
}

fn append_dec(v: &mut Vec<char>, n: u64)
    ensures
        final(v)@ == old(v)@ + decimal(n as nat),
{
    append_chars(v, &decimal_chars(n));
}

fn ping_chars(p: Option<u64>) -> (r: Vec<char>)
    ensures
        r@ == ping_text(p),
{
    match p {
        Some(ms) => {
            let mut v = decimal_chars(ms);
            append_chars(&mut v, &chars_of(" мс"));
            v
        },
        None => chars_of("Таймаут"),
    }
}

/// The report lines of a standard run, a line per target.
pub fn standard_result_lines(results: &[TargetResult]) -> (r: Vec<String>)
    ensures
        string_views(r@) == Seq::new(results@.len(), |i: int| std_result_line(results@[i])),
{
    let mut out: Vec<String> = Vec::new();
    let mut i: usize = 0;
    while i < results.len()
        invariant
            i <= results.len(),
            string_views(out@) == Seq::new(i as nat, |k: int| std_result_line(results@[k])),
        decreases results.len() - i,
    {
        let tr = &results[i];
        let mut line = chars_of("  ");
        append_chars(&mut line, &pad_right_chars(&chars_of(tr.name.as_str()), 36));
        if tr.is_url {
            let mut j: usize = 0;
            let ghost head = line@;
            while j < tr.http_tokens.len()
                invariant
                    j <= tr.http_tokens.len(),
                    line@ == head + tokens_text(tr.http_tokens@.take(j as int)),
                decreases tr.http_tokens.len() - j,
            {
                let t = &tr.http_tokens[j];
                assert(tr.http_tokens@.take(j + 1).drop_last() =~= tr.http_tokens@.take(j as int));
                append_chars(&mut line, &chars_of(" "));
                append_chars(&mut line, &chars_of(t.label.as_str()));
                append_chars(&mut line, &chars_of(":"));
                append_chars(&mut line, &chars_of(t.status.as_str()));
                j = j + 1;
                assert(line@ =~= head + tokens_text(tr.http_tokens@.take(j as int)));
            }
            assert(tr.http_tokens@.take(tr.http_tokens.len() as int) =~= tr.http_tokens@);
            append_chars(&mut line, &chars_of(" |"));
        }
        append_chars(&mut line, &chars_of(" Ping: "));
        append_chars(&mut line, &ping_chars(tr.ping_ms));
        assert(line@ =~= std_result_line(results@[i as int]));
        let ghost before = out@;
        out.push(string_from(&line));
        assert(string_views(out@) =~= string_views(before).push(line@));
        assert(string_views(out@) =~= Seq::new((i + 1) as nat, |k: int| std_result_line(results@[k])));
        i = i + 1;
    }
    out
}

/// An entry's line in the report's analytics.
pub open spec fn analytics_line(name: Seq<char>, a: StrategyAnalytics) -> Seq<char> {
    match a {
        StrategyAnalytics::Standard(s) => name + ": HTTP OK="@ + decimal(s.ok as nat) + " ERR="@ + decimal(s.error as nat) + " UNSUP="@
            + decimal(s.unsup as nat) + " PingOK="@ + decimal(s.ping_ok as nat) + " PingFail="@ + decimal(s.ping_fail as nat),
        StrategyAnalytics::Dpi(d) => name + ": OK="@ + decimal(d.ok as nat) + " FAIL="@ + decimal(d.fail as nat) + " UNSUP="@
            + decimal(d.unsupported as nat) + " BLOCKED="@ + decimal(d.likely_blocked as nat),
    }
}

fn analytics_line_exec(name: &String, a: &StrategyAnalytics) -> (r: Vec<char>)
    ensures
        r@ == analytics_line(name@, *a),
{
    let mut v = chars_of(name.as_str());
    match a {
        StrategyAnalytics::Standard(s) => {
            append_chars(&mut v, &chars_of(": HTTP OK="));
            append_dec(&mut v, s.ok as u64);
            append_chars(&mut v, &chars_of(" ERR="));
            append_dec(&mut v, s.error as u64);
            append_chars(&mut v, &chars_of(" UNSUP="));
            append_dec(&mut v, s.unsup as u64);
            append_chars(&mut v, &chars_of(" PingOK="));
            append_dec(&mut v, s.ping_ok as u64);
            append_chars(&mut v, &chars_of(" PingFail="));
            append_dec(&mut v, s.ping_fail as u64);
        },
        StrategyAnalytics::Dpi(d) => {
            append_chars(&mut v, &chars_of(": OK="));
            append_dec(&mut v, d.ok as u64);
            append_chars(&mut v, &chars_of(" FAIL="));
            append_dec(&mut v, d.fail as u64);
            append_chars(&mut v, &chars_of(" UNSUP="));
            append_dec(&mut v, d.unsupported as u64);
            append_chars(&mut v, &chars_of(" BLOCKED="));
            append_dec(&mut v, d.likely_blocked as u64);
        },
    }
    assert(v@ =~= analytics_line(name@, *a));
    v
}

/// The header of the summary table: standard or DPI columns.
pub open spec fn table_header(standard: bool) -> Seq<char> {
    if standard {
        pad_right("Стратегия"@, 32) + " "@ + pad_left("OK"@, 5) + " "@ + pad_left("ERR"@, 5) + " "@ + pad_left("UNSUP"@, 7) + " "@
            + pad_left("PingOK"@, 8) + " "@ + pad_left("PingFail"@, 9)
    } else {
        pad_right("Стратегия"@, 32) + " "@ + pad_left("OK"@, 5) + " "@ + pad_left("FAIL"@, 6) + " "@ + pad_left("UNSUP"@, 7) + " "@
            + pad_left("BLOCKED"@, 9)
    }
}

fn pad_left_str(s: &str, w: usize) -> (r: Vec<char>)
    ensures
        r@ == pad_left(s@, w as nat),
{
    crate::fmt::pad_left_chars(&chars_of(s), w)
}

/// The header of the summary table.
pub fn table_header_line(standard: bool) -> (r: String)
    ensures
        r@ == table_header(standard),
{
    let mut v = crate::fmt::str_left("Стратегия", 32);
    append_chars(&mut v, &chars_of(" "));
    append_chars(&mut v, &pad_left_str("OK", 5));
    append_chars(&mut v, &chars_of(" "));
    if standard {
        append_chars(&mut v, &pad_left_str("ERR", 5));
        append_chars(&mut v, &chars_of(" "));
        append_chars(&mut v, &pad_left_str("UNSUP", 7));
        append_chars(&mut v, &chars_of(" "));
        append_chars(&mut v, &pad_left_str("PingOK", 8));
        append_chars(&mut v, &chars_of(" "));
        append_chars(&mut v, &pad_left_str("PingFail", 9));
    } else {
        append_chars(&mut v, &pad_left_str("FAIL", 6));
        append_chars(&mut v, &chars_of(" "));
        append_chars(&mut v, &pad_left_str("UNSUP", 7));
        append_chars(&mut v, &chars_of(" "));
        append_chars(&mut v, &pad_left_str("BLOCKED", 9));
    }
    assert(v@ =~= table_header(standard));
    string_from(&v)
}

/// An entry's row of the summary table.
pub open spec fn table_row(name: Seq<char>, a: StrategyAnalytics) -> Seq<char> {
    match a {
        StrategyAnalytics::Standard(s) => pad_right(cut32(name), 32) + " "@ + pad_left(decimal(s.ok as nat), 5) + " "@
            + pad_left(decimal(s.error as nat), 5) + " "@ + pad_left(decimal(s.unsup as nat), 7) + " "@ + pad_left(
            decimal(s.ping_ok as nat),
            8,
        ) + " "@ + pad_left(decimal(s.ping_fail as nat), 9),
        StrategyAnalytics::Dpi(d) => pad_right(cut32(name), 32) + " "@ + pad_left(decimal(d.ok as nat), 5) + " "@ + pad_left(
            decimal(d.fail as nat),
            6,
        ) + " "@ + pad_left(decimal(d.unsupported as nat), 7) + " "@ + pad_left(decimal(d.likely_blocked as nat), 9),
    }
}

fn num_col(v: &mut Vec<char>, n: u32, w: usize)
    ensures
        final(v)@ == old(v)@ + " "@ + pad_left(decimal(n as nat), w as nat),
{
    append_chars(v, &chars_of(" "));
    append_chars(v, &number_right(n as u64, w));
}

/// An entry's row of the summary table.
pub fn table_row_line(name: &String, a: &StrategyAnalytics) -> (r: String)
    requires
        cuttable(name@),
    ensures
        r@ == table_row(name@, *a),
{
    let cut = truncate_name(name.as_str());
    let mut v = pad_right_chars(&chars_of(cut.as_str()), 32);
    match a {
        StrategyAnalytics::Standard(s) => {
            num_col(&mut v, s.ok, 5);
            num_col(&mut v, s.error, 5);
            num_col(&mut v, s.unsup, 7);
            num_col(&mut v, s.ping_ok, 8);
            num_col(&mut v, s.ping_fail, 9);
        },
        StrategyAnalytics::Dpi(d) => {
            num_col(&mut v, d.ok, 5);
            num_col(&mut v, d.fail, 6);
            num_col(&mut v, d.unsupported, 7);
            num_col(&mut v, d.likely_blocked, 9);
        },
    }
    assert(v@ =~= table_row(name@, *a));
    string_from(&v)
}

/// Every name of the entries can be shown in the tables.
pub open spec fn names_cuttable(a: Seq<(String, StrategyAnalytics)>) -> bool {
    forall|i: int| 0 <= i < a.len() ==> cuttable(#[trigger] a[i].0@)
}

/// The summary table is laid out for standard results unless its first entry is a DPI entry.
pub open spec fn table_is_standard(a: Seq<(String, StrategyAnalytics)>) -> bool {
    a.len() == 0 || a[0].1 is Standard
}

/// The entries' report lines and table rows in `order`.
pub fn ordered_lines(a: &Analytics, order: &Vec<usize>, rows: bool) -> (r: Vec<String>)
    requires
        forall|k: int| 0 <= k < order@.len() ==> order@[k] < a@.len(),
        rows ==> names_cuttable(a@),
    ensures
        string_views(r@) == Seq::new(order@.len(), |k: int| if rows {
            table_row(a@[order@[k] as int].0@, a@[order@[k] as int].1)
        } else {
            analytics_line(a@[order@[k] as int].0@, a@[order@[k] as int].1)
        }),
{
    let mut out: Vec<String> = Vec::new();
    let mut k: usize = 0;
    while k < order.len()
        invariant
            k <= order.len(),
            forall|j: int| 0 <= j < order@.len() ==> order@[j] < a@.len(),
            rows ==> names_cuttable(a@),
            string_views(out@) == Seq::new(k as nat, |j: int| if rows {
                table_row(a@[order@[j] as int].0@, a@[order@[j] as int].1)
            } else {
                analytics_line(a@[order@[j] as int].0@, a@[order@[j] as int].1)
            }),
        decreases order.len() - k,
    {
        let e = &a[order[k]];
        let line = if rows {
            assert(cuttable(a@[order@[k as int] as int].0@));
            table_row_line(&e.0, &e.1)
        } else {
            string_from(&analytics_line_exec(&e.0, &e.1))
        };
        let ghost before = out@;
        out.push(line);
        assert(string_views(out@) =~= string_views(before).push(line@));
        k = k + 1;
        assert(string_views(out@) =~= Seq::new(k as nat, |j: int| if rows {
            table_row(a@[order@[j] as int].0@, a@[order@[j] as int].1)
        } else {
            analytics_line(a@[order@[j] as int].0@, a@[order@[j] as int].1)
        }));
    }
    out
}

// ------------------------------------------------------------------------
// The report
// ------------------------------------------------------------------------

fn push_all(out: &mut Vec<String>, lines: Vec<String>)
    ensures
        string_views(final(out)@) == string_views(old(out)@) + string_views(lines@),
{
    let ghost start = string_views(out@);
    let mut lines = lines;
    let ghost l0 = string_views(lines@);
    out.append(&mut lines);
    assert(string_views(out@) =~= start + l0);
}

fn push_line(out: &mut Vec<String>, line: Vec<char>)
    ensures
        string_views(final(out)@) == string_views(old(out)@).push(line@),
{
    let ghost start = out@;
    out.push(string_from(&line));
    assert(string_views(out@) =~= string_views(start).push(line@));
}

/// The report's block for one strategy: its name and test type, a rule, the
/// standard results (a line per target) or the DPI lines, and a blank line.
pub open spec fn run_block(r: RunResult, dpi: Seq<Seq<char>>) -> Seq<Seq<char>> {
    seq!["Стратегия: "@ + r.strategy_name@ + " (тип: "@ + debug_type(r.test_type) + ")"@, repeat('-', 64)] + match r.standard {
        Some(st) => Seq::new(st@.len(), |i: int| std_result_line(st@[i])),
        None => Seq::empty(),
    } + (if r.dpi is Some { dpi } else { Seq::empty() }) + seq![Seq::<char>::empty()]
}

/// The blocks of the first `n` strategies.
pub open spec fn runs_block(rs: Seq<RunResult>, dpi: Seq<Vec<String>>, n: nat) -> Seq<Seq<char>>
    decreases n,
{
    if n == 0 {
        Seq::empty()
    } else {
        runs_block(rs, dpi, (n - 1) as nat) + run_block(rs[n - 1], string_views(dpi[n - 1]@))
    }
}

/// A strategy scoring best, as `find_best` chooses it (none without entries).
pub open spec fn best_ok(a: Seq<(String, StrategyAnalytics)>, best: Option<Seq<char>>) -> bool {
    &&& (best is None <==> a.len() == 0)
    &&& (best matches Some(n) ==> exists|i: int|
        0 <= i < a.len() && (#[trigger] a[i]).0@ == n && forall|j: int| 0 <= j < a.len() ==> at_least_as_good(a[i].1, #[trigger] a[j].1))
}

/// The saved report: a title with the date, each strategy's block, the
/// analytics by name, the summary table by name, and the best strategy.
pub open spec fn spec_report(rs: Seq<RunResult>, a: Seq<(String, StrategyAnalytics)>, ts: Seq<char>, dpi: Seq<Vec<String>>, order: Seq<usize>, best: Option<Seq<char>>) -> Seq<Seq<char>> {
    seq!["MuZap Test Report"@, "Дата: "@ + ts, repeat('=', 64), Seq::<char>::empty()] + runs_block(rs, dpi, rs.len())
        + seq![repeat('=', 64), "АНАЛИТИКА"@, repeat('=', 64)]
        + Seq::new(order.len(), |k: int| analytics_line(a[order[k] as int].0@, a[order[k] as int].1))
        + seq![Seq::<char>::empty(), repeat('=', 64), "СВОДНАЯ ТАБЛИЦА"@, repeat('=', 64), table_header(table_is_standard(a)), repeat('-', 64)]
        + Seq::new(order.len(), |k: int| table_row(a[order[k] as int].0@, a[order[k] as int].1))
        + seq![repeat('-', 64), Seq::<char>::empty()]
        + match best {
            Some(b) => seq!["Лучшая стратегия: "@ + b],
            None => Seq::empty(),
        }
}

/// The lines of the saved report, given the time stamp and, for each run,
/// its DPI lines as written with their measurements.
#[verifier::rlimit(40)]
pub fn write_report(results: &[RunResult], analytics: &Analytics, timestamp: &str, dpi_lines: &[Vec<String>]) -> (r: Vec<String>)
    requires
        dpi_lines.len() == results.len(),
        names_cuttable(analytics@),
    ensures
        exists|order: Seq<usize>, best: Option<Seq<char>>|
            sorted_order(analytics@, order) && best_ok(analytics@, best) && string_views(r@) == spec_report(
                results@,
                analytics@,
                timestamp@,
                dpi_lines@,
                order,
                best,
            ),
{
    let mut out: Vec<String> = Vec::new();
    push_line(&mut out, chars_of("MuZap Test Report"));
    let mut d = chars_of("Дата: ");
    append_chars(&mut d, &chars_of(timestamp));
    push_line(&mut out, d);
    push_line(&mut out, repeat_chars('=', 64));
    push_line(&mut out, Vec::new());
    let ghost head = string_views(out@);
    assert(head =~= seq!["MuZap Test Report"@, "Дата: "@ + timestamp@, repeat('=', 64), Seq::<char>::empty()]);
    let mut i: usize = 0;
    while i < results.len()
        invariant
            i <= results.len() == dpi_lines.len(),
            string_views(out@) == head + runs_block(results@, dpi_lines@, i as nat),
        decreases results.len() - i,
    {
        let ghost before = string_views(out@);
        let run = &results[i];
        let mut t = chars_of("Стратегия: ");
        append_chars(&mut t, &chars_of(run.strategy_name.as_str()));
        append_chars(&mut t, &chars_of(" (тип: "));
        append_chars(&mut t, &chars_of(match run.test_type {
            TestType::Standard => "Standard",
            TestType::Dpi => "Dpi",
        }));
        append_chars(&mut t, &chars_of(")"));
        push_line(&mut out, t);
        push_line(&mut out, repeat_chars('-', 64));
        let ghost mid0 = string_views(out@);
        match &run.standard {
            Some(st) => push_all(&mut out, standard_result_lines(st.as_slice())),
            None => {},
        }
        let ghost mid1 = string_views(out@);
        if run.dpi.is_some() {
            let mut j: usize = 0;
            while j < dpi_lines[i].len()
                invariant
                    j <= dpi_lines@[i as int]@.len(),
                    i < dpi_lines.len(),
                    string_views(out@) == mid1 + string_views(dpi_lines@[i as int]@).take(j as int),
                decreases dpi_lines@[i as int]@.len() - j,
            {
                let ghost b = out@;
                out.push(dpi_lines[i][j].clone());
                assert(string_views(out@) =~= string_views(b).push(dpi_lines@[i as int]@[j as int]@));
                j = j + 1;
                assert(string_views(out@) =~= mid1 + string_views(dpi_lines@[i as int]@).take(j as int));
            }
            assert(string_views(dpi_lines@[i as int]@).take(dpi_lines@[i as int]@.len() as int) =~= string_views(dpi_lines@[i as int]@));
        }
        push_line(&mut out, Vec::new());
        assert(string_views(out@) =~= before + run_block(results@[i as int], string_views(dpi_lines@[i as int]@))) by {
            reveal_strlit(")");
        }
        i = i + 1;
    }
    let ghost after_runs = string_views(out@);
    push_line(&mut out, repeat_chars('=', 64));
    push_line(&mut out, chars_of("АНАЛИТИКА"));
    push_line(&mut out, repeat_chars('=', 64));
    let order = sort_by_name(analytics);
    push_all(&mut out, ordered_lines(analytics, &order, false));
    push_line(&mut out, Vec::new());
    push_line(&mut out, repeat_chars('=', 64));
    push_line(&mut out, chars_of("СВОДНАЯ ТАБЛИЦА"));
    push_line(&mut out, repeat_chars('=', 64));
    let standard = analytics.len() == 0 || match analytics[0].1 {
        StrategyAnalytics::Standard(_) => true,
        StrategyAnalytics::Dpi(_) => false,
    };
    push_line(&mut out, chars_of(table_header_line(standard).as_str()));
    push_line(&mut out, repeat_chars('-', 64));
    push_all(&mut out, ordered_lines(analytics, &order, true));
    push_line(&mut out, repeat_chars('-', 64));
    push_line(&mut out, Vec::new());
    let best = crate::tester::analytics::find_best(analytics);
    let ghost best_v: Option<Seq<char>> = match &best {
        Some(b) => Some(b@),
        None => None,
    };
    let ghost before_best = string_views(out@);
    match &best {
        Some(b) => {
            let mut l = chars_of("Лучшая стратегия: ");
            append_chars(&mut l, &chars_of(b.as_str()));
            push_line(&mut out, l);
        },
        None => {},
    }
    assert(best_ok(analytics@, best_v));
    assert(string_views(out@) =~= spec_report(results@, analytics@, timestamp@, dpi_lines@, order@, best_v));
    out
}

// ------------------------------------------------------------------------
// On the console
// ------------------------------------------------------------------------

/// How a status is coloured on the console.
#[derive(Debug, Clone, Copy, PartialEq, Eq, Structural)]
pub enum Shade {
    /// Green.
    Good,
    /// Yellow.
    Doubtful,
    /// Red.
    Bad,
}

/// A request token's colour: `OK` green, `UNSUP` yellow, anything else red.
pub fn token_shade(status: &str) -> (r: Shade)
    ensures
        r == if status@ == "OK"@ { Shade::Good } else if status@ == "UNSUP"@ { Shade::Doubtful } else { Shade::Bad },
{
    let v = chars_of(status);
    if crate::text::eq_str(&v, "OK") {
        Shade::Good
    } else if crate::text::eq_str(&v, "UNSUP") {
        Shade::Doubtful
    } else {
        Shade::Bad
    }
}

/// A probe's colour: `OK` green, `LIKELY_BLOCKED` and `UNSUPPORTED` yellow, anything else red.
pub fn probe_shade(status: &str) -> (r: Shade)
    ensures
        r == if status@ == "OK"@ {
            Shade::Good
        } else if status@ == "LIKELY_BLOCKED"@ || status@ == "UNSUPPORTED"@ {
            Shade::Doubtful
        } else {
            Shade::Bad
        },
{
    let v = chars_of(status);
    if crate::text::eq_str(&v, "OK") {
        Shade::Good
    } else if crate::text::eq_str(&v, "LIKELY_BLOCKED") || crate::text::eq_str(&v, "UNSUPPORTED") {
        Shade::Doubtful
    } else {
        Shade::Bad
    }
}

/// An entry's line in the analytics printed on the console.
pub open spec fn console_line(name: Seq<char>, a: StrategyAnalytics) -> Seq<char> {
    match a {
        StrategyAnalytics::Standard(s) => "  "@ + pad_right(cut32(name), 32) + " HTTP OK: "@ + pad_left(decimal(s.ok as nat), 3)
            + "  ERR: "@ + pad_left(decimal(s.error as nat), 3) + "  UNSUP: "@ + pad_left(decimal(s.unsup as nat), 3)
            + "  Ping OK: "@ + pad_left(decimal(s.ping_ok as nat), 3) + "  Ping Fail: "@ + pad_left(decimal(s.ping_fail as nat), 3),
        StrategyAnalytics::Dpi(d) => "  "@ + pad_right(cut32(name), 32) + " OK: "@ + pad_left(decimal(d.ok as nat), 3)
            + "  FAIL: "@ + pad_left(decimal(d.fail as nat), 3) + "  UNSUP: "@ + pad_left(decimal(d.unsupported as nat), 3)
            + "  BLOCKED: "@ + pad_left(decimal(d.likely_blocked as nat), 3),
    }
}

fn labelled(v: &mut Vec<char>, label: &str, n: u32)
    ensures
        final(v)@ == old(v)@ + label@ + pad_left(decimal(n as nat), 3),
{
    append_chars(v, &chars_of(label));
    append_chars(v, &number_right(n as u64, 3));
}

/// The analytics as printed on the console, by name.
pub fn console_analytics_lines(a: &Analytics) -> (r: Vec<String>)
    requires
        names_cuttable(a@),
    ensures
        exists|order: Seq<usize>| sorted_order(a@, order) && string_views(r@) == Seq::new(order.len(), |k: int| console_line(a@[order[k] as int].0@, a@[order[k] as int].1)),
{
    let order = sort_by_name(a);
    let mut out: Vec<String> = Vec::new();
    let mut k: usize = 0;
    while k < order.len()
        invariant
            k <= order.len(),
            sorted_order(a@, order@),
            names_cuttable(a@),
            string_views(out@) == Seq::new(k as nat, |j: int| console_line(a@[order@[j] as int].0@, a@[order@[j] as int].1)),
        decreases order.len() - k,
    {
        let e = &a[order[k]];
        assert(cuttable(a@[order@[k as int] as int].0@));
        let cut = truncate_name(e.0.as_str());
        let mut v = chars_of("  ");
        append_chars(&mut v, &pad_right_chars(&chars_of(cut.as_str()), 32));
        match &e.1 {
            StrategyAnalytics::Standard(s) => {
                labelled(&mut v, " HTTP OK: ", s.ok);
                labelled(&mut v, "  ERR: ", s.error);
                labelled(&mut v, "  UNSUP: ", s.unsup);
                labelled(&mut v, "  Ping OK: ", s.ping_ok);
                labelled(&mut v, "  Ping Fail: ", s.ping_fail);
            },
            StrategyAnalytics::Dpi(d) => {
                labelled(&mut v, " OK: ", d.ok);
                labelled(&mut v, "  FAIL: ", d.fail);
                labelled(&mut v, "  UNSUP: ", d.unsupported);
                labelled(&mut v, "  BLOCKED: ", d.likely_blocked);
            },
        }
        assert(v@ =~= console_line(a@[order@[k as int] as int].0@, a@[order@[k as int] as int].1));
        push_line(&mut out, v);
        k = k + 1;
        assert(string_views(out@) =~= Seq::new(k as nat, |j: int| console_line(a@[order@[j] as int].0@, a@[order@[j] as int].1)));
    }
    out
}

/// The highest count of good outcomes (0 without entries).
pub open spec fn best_score(a: Seq<(String, StrategyAnalytics)>) -> int
    decreases a.len(),
{
    if a.len() == 0 {
        0
    } else {
        let prev = best_score(a.drop_last());
        if spec_ok_score(a.last().1) > prev { spec_ok_score(a.last().1) } else { prev }
    }
}

/// Which rows of the console table are highlighted, in `order`: those
/// reaching the best count of good outcomes, when that count is above zero.
pub fn highlighted_rows(a: &Analytics, order: &Vec<usize>) -> (r: Vec<bool>)
    requires
        forall|k: int| 0 <= k < order@.len() ==> order@[k] < a@.len(),
    ensures
        r@ == Seq::new(order@.len(), |k: int| best_score(a@) > 0 && spec_ok_score(a@[order@[k] as int].1) == best_score(a@)),
{
    let mut best: u32 = 0;
    let mut i: usize = 0;
    while i < a.len()
        invariant
            i <= a.len(),
            best == best_score(a@.take(i as int)),
        decreases a.len() - i,
    {
        assert(a@.take(i + 1).drop_last() =~= a@.take(i as int));
        let s = a[i].1.ok_score();
        if s > best {
            best = s;
        }
        i = i + 1;
    }
    assert(a@.take(a.len() as int) =~= a@);
    let mut out: Vec<bool> = Vec::new();
    let mut k: usize = 0;
    while k < order.len()
        invariant
            k <= order.len(),
            forall|j: int| 0 <= j < order@.len() ==> order@[j] < a@.len(),
            best == best_score(a@),
            out@ == Seq::new(k as nat, |j: int| best_score(a@) > 0 && spec_ok_score(a@[order@[j] as int].1) == best_score(a@)),
        decreases order.len() - k,
    {
        let s = a[order[k]].1.ok_score();
        out.push(best > 0 && s == best);
        k = k + 1;
        assert(out@ =~= Seq::new(k as nat, |j: int| best_score(a@) > 0 && spec_ok_score(a@[order@[j] as int].1) == best_score(a@)));
    }
    out
}

} // verus!
