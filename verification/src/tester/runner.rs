//! Putting `winws.exe` processes back after a test: the command line a
//! snapshot records, the arguments it restarts with, and whether a process
//! still runs. Listing, killing and starting processes stay with the caller.
use vstd::prelude::*;

pub use crate::process::split_args;
pub use crate::winws_service::is_winws_name;

use crate::process::{spec_split_args, split_acc, split_step, SplitState};
use crate::text::{append_chars, chars_of, contains, contains_chars, is_ws, join, join_chars, starts_with, string_from, string_views, strip_prefix_vec, trim, trim_end, trim_start, trim_vec, upper, upper_vec, views};

verus! {

/// A `winws.exe` process seen before the test: its executable and command line.
#[derive(Debug, Clone)]
pub struct WinwsSnapshot {
    pub exe_path: String,
    pub cmdline: String,
}

/// An argument as the snapshot writes it: in double quotes when it holds a space.
pub open spec fn quote_arg(a: Seq<char>) -> Seq<char> {
    if contains(a, seq![' ']) { seq!['"'] + a + seq!['"'] } else { a }
}

pub open spec fn quoted(args: Seq<Seq<char>>) -> Seq<Seq<char>> {
    args.map_values(|a: Seq<char>| quote_arg(a))
}

/// The command line a snapshot records: the arguments (the program first),
/// each quoted when it holds a space, joined by spaces.
pub open spec fn spec_snapshot_cmdline(args: Seq<Seq<char>>) -> Seq<char> {
    join(quoted(args), seq![' '])
}

/// The command line recorded for a process with arguments `args`.
pub fn snapshot_cmdline(args: &[String]) -> (r: String)
    ensures
        r@ == spec_snapshot_cmdline(args@.map_values(|s: String| s@)),
{
    let ghost av = args@.map_values(|s: String| s@);
    let mut q: Vec<Vec<char>> = Vec::new();
    let mut sp: Vec<char> = Vec::new();
    sp.push(' ');
    let mut i: usize = 0;
    while i < args.len()
        invariant
            i <= args.len(),
            av == args@.map_values(|s: String| s@),
            sp@ == seq![' '],
            views(q@) == quoted(av.take(i as int)),
        decreases args.len() - i,
    {
        let a = chars_of(args[i].as_str());
        let item = if contains_chars(&a, &sp) {
            let mut v: Vec<char> = Vec::new();
            v.push('"');
            append_chars(&mut v, &a);
            v.push('"');
            v
        } else {
            a
        };
        assert(item@ == quote_arg(av[i as int])) by {
            if contains(av[i as int], seq![' ']) {
                assert(item@ =~= seq!['"'] + av[i as int] + seq!['"']);
            }
        }
        let ghost before = views(q@);
        q.push(item);
        assert(views(q@) =~= before.push(item@));
        assert(quoted(av.take(i + 1)) =~= quoted(av.take(i as int)).push(quote_arg(av[i as int])));
        i = i + 1;
    }
    assert(av.take(args.len() as int) =~= av);
    string_from(&join_chars(&q, &sp))
}

/// The command line of a running process as compared with a snapshot: the
/// arguments joined by spaces, without quoting.
pub fn running_cmdline(args: &[String]) -> (r: String)
    ensures
        r@ == join(args@.map_values(|s: String| s@), seq![' ']),
{
    let ghost av = args@.map_values(|s: String| s@);
    let mut v: Vec<Vec<char>> = Vec::new();
    let mut i: usize = 0;
    while i < args.len()
        invariant
            i <= args.len(),
            av == args@.map_values(|s: String| s@),
            views(v@) == av.take(i as int),
        decreases args.len() - i,
    {
        let ghost before = views(v@);
        v.push(chars_of(args[i].as_str()));
        assert(views(v@) =~= before.push(av[i as int]));
        assert(av.take(i + 1) =~= av.take(i as int).push(av[i as int]));
        i = i + 1;
    }
    assert(av.take(args.len() as int) =~= av);
    let mut sp: Vec<char> = Vec::new();
    sp.push(' ');
    assert(sp@ =~= seq![' ']);
    string_from(&join_chars(&v, &sp))
}

/// A snapshot is restored only when no running `winws` has its command line.
pub fn needs_restore(running: &[String], snap: &WinwsSnapshot) -> (r: bool)
    ensures
        r == forall|i: int| 0 <= i < running@.len() ==> (#[trigger] running@[i])@ != snap.cmdline@,
{
    let mut i: usize = 0;
    while i < running.len()
        invariant
            i <= running.len(),
            forall|j: int| 0 <= j < i ==> (#[trigger] running@[j])@ != snap.cmdline@,
        decreases running.len() - i,
    {
        if running[i] == snap.cmdline {
            return false;
        }
        i = i + 1;
    }
    true
}

/// The argument text of a snapshot: its command line without the program
/// (written `"exe"` or `exe`), trimmed; empty when it starts with neither.
pub open spec fn spec_restore_text(cmdline: Seq<char>, exe: Seq<char>) -> Seq<char> {
    let quoted_exe = seq!['"'] + exe + seq!['"'];
    if starts_with(cmdline, quoted_exe) {
        trim(cmdline.skip(quoted_exe.len() as int))
    } else if starts_with(cmdline, exe) {
        trim(cmdline.skip(exe.len() as int))
    } else {
        Seq::empty()
    }
}

/// The arguments a snapshot's process is restarted with.
pub open spec fn spec_restore_args(snap_cmdline: Seq<char>, exe: Seq<char>) -> Seq<Seq<char>> {
    spec_split_args(spec_restore_text(snap_cmdline, exe))
}

/// The arguments to restart a snapshot's process with.
pub fn restore_args(snap: &WinwsSnapshot) -> (r: Vec<String>)
    ensures
        string_views(r@) == spec_restore_args(snap.cmdline@, snap.exe_path@),
{
    let c = chars_of(snap.cmdline.as_str());
    let e = chars_of(snap.exe_path.as_str());
    let mut q: Vec<char> = Vec::new();
    q.push('"');
    append_chars(&mut q, &e);
    q.push('"');
    assert(q@ =~= seq!['"'] + snap.exe_path@ + seq!['"']);
    let text = match strip_prefix_vec(&c, &q) {
        Some(rest) => trim_vec(&rest),
        None => match strip_prefix_vec(&c, &e) {
            Some(rest) => trim_vec(&rest),
            None => Vec::new(),
        },
    };
    let s = string_from(&text);
    split_args(s.as_str())
}

// ------------------------------------------------------------------------
// Restoring what a snapshot recorded
// ------------------------------------------------------------------------

/// An argument that survives the snapshot and the splitting unchanged:
/// non-empty, without quotes, and without whitespace other than spaces.
pub open spec fn plain_arg(a: Seq<char>) -> bool {
    a.len() > 0 && forall|i: int| 0 <= i < a.len() ==> a[i] != '"' && a[i] != '\'' && (is_ws(#[trigger] a[i]) ==> a[i] == ' ')
}

/// The splitter run from state `st` over `s`.
pub open spec fn split_from(st: SplitState, s: Seq<char>) -> SplitState
    decreases s.len(),
{
    if s.len() == 0 {
        st
    } else {
        split_step(split_from(st, s.drop_last()), s.last())
    }
}

pub open spec fn split_init() -> SplitState {
    (Seq::empty(), Seq::empty(), false, false)
}

proof fn lemma_split_acc_from(s: Seq<char>)
    ensures
        split_acc(s) == split_from(split_init(), s),
    decreases s.len(),
{
    if s.len() > 0 {
        lemma_split_acc_from(s.drop_last());
    }
}

proof fn lemma_split_from_append(st: SplitState, a: Seq<char>, b: Seq<char>)
    ensures
        split_from(st, a + b) == split_from(split_from(st, a), b),
    decreases b.len(),
{
    if b.len() == 0 {
        assert(a + b =~= a);
    } else {
        lemma_split_from_append(st, a, b.drop_last());
        assert((a + b).drop_last() =~= a + b.drop_last());
        assert((a + b).last() == b.last());
    }
}

proof fn lemma_split_one(st: SplitState, c: char)
    ensures
        split_from(st, seq![c]) == split_step(st, c),
{
    assert(seq![c].drop_last() =~= Seq::<char>::empty());
    assert(seq![c].last() == c);
    reveal_with_fuel(split_from, 2);
}

/// Inside double quotes, characters other than `"` are taken as they are.
proof fn lemma_split_quoted_run(args: Seq<Seq<char>>, cur: Seq<char>, a: Seq<char>)
    requires
        forall|i: int| 0 <= i < a.len() ==> a[i] != '"',
    ensures
        split_from((args, cur, true, false), a) == (args, cur + a, true, false),
    decreases a.len(),
{
    if a.len() == 0 {
        assert(cur + a =~= cur);
    } else {
        lemma_split_quoted_run(args, cur, a.drop_last());
        assert(a.last() == a[a.len() - 1]);
        assert((cur + a.drop_last()).push(a.last()) =~= cur + a);
    }
}

/// Outside quotes, characters other than quotes, spaces and tabs are taken as they are.
proof fn lemma_split_plain_run(args: Seq<Seq<char>>, cur: Seq<char>, a: Seq<char>)
    requires
        forall|i: int| 0 <= i < a.len() ==> a[i] != '"' && a[i] != '\'' && a[i] != ' ' && a[i] != '\t',
    ensures
        split_from((args, cur, false, false), a) == (args, cur + a, false, false),
    decreases a.len(),
{
    if a.len() == 0 {
        assert(cur + a =~= cur);
    } else {
        lemma_split_plain_run(args, cur, a.drop_last());
        assert(a.last() == a[a.len() - 1]);
        assert((cur + a.drop_last()).push(a.last()) =~= cur + a);
    }
}

/// One written argument, read from a fresh position, is the argument.
proof fn lemma_split_arg(args: Seq<Seq<char>>, a: Seq<char>)
    requires
        plain_arg(a),
    ensures
        split_from((args, Seq::empty(), false, false), quote_arg(a)) == (args, a, false, false),
{
    let e = Seq::<char>::empty();
    if contains(a, seq![' ']) {
        let q = seq!['"'] + a + seq!['"'];
        assert(q == quote_arg(a));
        lemma_split_from_append((args, e, false, false), seq!['"'] + a, seq!['"']);
        lemma_split_from_append((args, e, false, false), seq!['"'], a);
        lemma_split_one((args, e, false, false), '"');
        assert(split_from((args, e, false, false), seq!['"']) == (args, e, true, false));
        lemma_split_quoted_run(args, e, a);
        assert(e + a =~= a);
        lemma_split_one((args, a, true, false), '"');
        assert(split_from((args, a, true, false), seq!['"']) == (args, a, false, false));
    } else {
        assert forall|i: int| 0 <= i < a.len() implies a[i] != '"' && a[i] != '\'' && a[i] != ' ' && a[i] != '\t' by {
            if a[i] == ' ' {
                assert(a.subrange(i, i + 1) =~= seq![' ']);
            }
            if a[i] == '\t' {
                assert(is_ws(a[i]));
            }
        }
        lemma_split_plain_run(args, e, a);
        assert(e + a =~= a);
    }
}

/// A list of written arguments joined by spaces reads back as the list: the
/// last argument still being read.
proof fn lemma_split_join(l: Seq<Seq<char>>)
    requires
        l.len() > 0,
        forall|i: int| 0 <= i < l.len() ==> plain_arg(#[trigger] l[i]),
    ensures
        split_from(split_init(), join(quoted(l), seq![' '])) == (l.drop_last(), l.last(), false, false),
    decreases l.len(),
{
    if l.len() == 1 {
        assert(join(quoted(l), seq![' ']) == quoted(l)[0]);
        lemma_split_arg(Seq::empty(), l[0]);
        assert(l.drop_last() =~= Seq::<Seq<char>>::empty());
    } else {
        let f = l.drop_last();
        assert forall|i: int| 0 <= i < f.len() implies plain_arg(#[trigger] f[i]) by {
            assert(f[i] == l[i]);
        }
        lemma_split_join(f);
        assert(quoted(l).drop_last() =~= quoted(f));
        let jf = join(quoted(f), seq![' ']);
        assert(join(quoted(l), seq![' ']) == jf + seq![' '] + quote_arg(l.last()));
        lemma_split_from_append(split_init(), jf + seq![' '], quote_arg(l.last()));
        lemma_split_from_append(split_init(), jf, seq![' ']);
        assert(plain_arg(f[f.len() - 1]));
        lemma_split_one((f.drop_last(), f.last(), false, false), ' ');
        assert(split_from((f.drop_last(), f.last(), false, false), seq![' ']) == (f.drop_last().push(f.last()), Seq::<char>::empty(), false, false));
        assert(f.drop_last().push(f.last()) =~= f);
        assert(plain_arg(l[l.len() - 1]));
        lemma_split_arg(f, l.last());
    }
}

/// Joining a first line and a non-empty rest.
proof fn lemma_join_cons(x: Seq<char>, ys: Seq<Seq<char>>, sep: Seq<char>)
    requires
        ys.len() > 0,
    ensures
        join(seq![x] + ys, sep) == x + sep + join(ys, sep),
    decreases ys.len(),
{
    let l = seq![x] + ys;
    if ys.len() == 1 {
        assert(l.drop_last() =~= seq![x]);
        assert(join(seq![x], sep) == x);
        assert(join(ys, sep) == ys[0]);
    } else {
        lemma_join_cons(x, ys.drop_last(), sep);
        assert(l.drop_last() =~= seq![x] + ys.drop_last());
        assert(x + sep + join(ys.drop_last(), sep) + sep + ys.last() =~= x + sep + (join(ys.drop_last(), sep) + sep + ys.last()));
    }
}

/// A written argument list starts and ends with neither a space nor other whitespace.
proof fn lemma_joined_ends(l: Seq<Seq<char>>)
    requires
        l.len() > 0,
        forall|i: int| 0 <= i < l.len() ==> plain_arg(#[trigger] l[i]),
    ensures
        join(quoted(l), seq![' ']).len() > 0,
        !is_ws(join(quoted(l), seq![' '])[0]),
        !is_ws(join(quoted(l), seq![' ']).last()),
    decreases l.len(),
{
    let j = join(quoted(l), seq![' ']);
    let q0 = quote_arg(l[0]);
    let ql = quote_arg(l.last());
    assert(plain_arg(l[0]));
    assert(plain_arg(l[l.len() - 1]));
    assert(!is_ws(q0[0])) by {
        if !contains(l[0], seq![' ']) {
            if is_ws(l[0][0]) {
                assert(l[0][0] == ' ');
                assert(l[0].subrange(0, 1) =~= seq![' ']);
            }
        }
    }
    assert(!is_ws(ql.last())) by {
        let a = l.last();
        if contains(a, seq![' ']) {
            assert(ql == seq!['"'] + a + seq!['"']);
            assert(ql.last() == '"');
        } else {
            assert(ql == a);
            assert(a == l[l.len() - 1]);
            assert(a.len() > 0);
            if is_ws(a[a.len() - 1]) {
                assert(a[a.len() - 1] == ' ');
                let k = a.len() - 1;
                assert(a.subrange(k, k + seq![' '].len()) =~= seq![' ']);
                assert(contains(a, seq![' ']));
            }
        }
    }
    if l.len() == 1 {
        assert(j == q0);
    } else {
        let f = l.drop_last();
        assert forall|i: int| 0 <= i < f.len() implies plain_arg(#[trigger] f[i]) by {
            assert(f[i] == l[i]);
        }
        lemma_joined_ends(f);
        assert(quoted(l).drop_last() =~= quoted(f));
        let jf = join(quoted(f), seq![' ']);
        assert(j == jf + seq![' '] + ql);
        assert(j[0] == jf[0]);
        assert(f[0] == l[0]);
        assert(j.last() == ql.last());
    }
}

/// Trimming text that starts and ends with non-whitespace, after one space.
proof fn lemma_trim_space_prefix(j: Seq<char>)
    requires
        j.len() > 0,
        !is_ws(j[0]),
        !is_ws(j.last()),
    ensures
        trim(seq![' '] + j) == j,
{
    let s = seq![' '] + j;
    assert(is_ws(s[0]));
    assert(s.drop_first() =~= j);
    assert(trim_start(s) == trim_start(j));
    assert(trim_start(j) == j);
    assert(trim_end(j) == j);
}

/// A process restored from a snapshot gets back its arguments: recording the
/// command line of `exe` with `args` and splitting what follows the program
/// gives `args` again, for a program path without quotes and arguments
/// without quotes or whitespace other than spaces.
pub proof fn law_restore_after_snapshot(exe: Seq<char>, args: Seq<Seq<char>>)
    requires
        exe.len() > 0,
        forall|i: int| 0 <= i < exe.len() ==> exe[i] != '"',
        forall|i: int| 0 <= i < args.len() ==> plain_arg(#[trigger] args[i]),
    ensures
        spec_restore_args(spec_snapshot_cmdline(seq![exe] + args), exe) == args,
{
    let cmd = seq![exe] + args;
    let c = spec_snapshot_cmdline(cmd);
    let qe = seq!['"'] + exe + seq!['"'];
    let q = quote_arg(exe);
    assert(quoted(cmd) =~= seq![q] + quoted(args));
    let rest_text = if args.len() == 0 { Seq::<char>::empty() } else { seq![' '] + join(quoted(args), seq![' ']) };
    if args.len() == 0 {
        assert(quoted(cmd) =~= seq![q]);
        assert(c == q);
    } else {
        lemma_join_cons(q, quoted(args), seq![' ']);
        assert(c == q + (seq![' '] + join(quoted(args), seq![' '])));
    }
    assert(c =~= q + rest_text);
    // which prefix is stripped
    let stripped = if contains(exe, seq![' ']) {
        assert(q == qe);
        assert(starts_with(c, qe)) by {
            assert(c.take(qe.len() as int) =~= qe);
        }
        c.skip(qe.len() as int)
    } else {
        assert(q == exe);
        assert(!starts_with(c, qe)) by {
            assert(c[0] == exe[0]);
            assert(qe[0] == '"');
            if starts_with(c, qe) {
                assert(c.take(qe.len() as int)[0] == qe[0]);
            }
        }
        assert(starts_with(c, exe)) by {
            assert(c.take(exe.len() as int) =~= exe);
        }
        c.skip(exe.len() as int)
    };
    assert(stripped =~= rest_text);
    assert(spec_restore_text(c, exe) == trim(rest_text));
    lemma_split_acc_from(trim(rest_text));
    if args.len() == 0 {
        assert(trim(Seq::<char>::empty()) == Seq::<char>::empty()) by {
            reveal_with_fuel(trim_start, 1);
            reveal_with_fuel(trim_end, 1);
        }
        assert(split_acc(Seq::<char>::empty()) == split_init());
        assert(spec_split_args(Seq::<char>::empty()) =~= Seq::<Seq<char>>::empty());
    } else {
        lemma_joined_ends(args);
        lemma_trim_space_prefix(join(quoted(args), seq![' ']));
        lemma_split_join(args);
        assert(plain_arg(args[args.len() - 1]));
        assert(args.drop_last().push(args.last()) =~= args);
    }
}

/// Whether the output of `sc query MuZap` reports the service running: it
/// mentions `RUNNING` in any ASCII case.
pub fn sc_query_says_running(output: &str) -> (r: bool)
    ensures
        r == contains(upper(output@), "RUNNING"@),
{
    contains_chars(&upper_vec(&chars_of(output)), &chars_of("RUNNING"))
}

} // verus!
