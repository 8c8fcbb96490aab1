//! Splitting a parameter string into process arguments.
use vstd::prelude::*;

use crate::text::{chars_of, copy, string_views, strings_from, views};

verus! {

/// Splitter state: finished arguments, the argument being read, inside `"..."`, inside `'...'`.
pub type SplitState = (Seq<Seq<char>>, Seq<char>, bool, bool);

/// The splitter's handling of one character: quotes toggle their mode and are
/// dropped (a quote of the other kind inside one is kept), unquoted spaces and
/// tabs end a non-empty argument, anything else is appended.
pub open spec fn split_step(st: SplitState, c: char) -> SplitState {
    let (args, cur, dq, sq) = st;
    if c == '"' && !sq {
        (args, cur, !dq, sq)
    } else if c == '\'' && !dq {
        (args, cur, dq, !sq)
    } else if (c == ' ' || c == '\t') && !dq && !sq {
        if cur.len() > 0 { (args.push(cur), Seq::empty(), dq, sq) } else { (args, cur, dq, sq) }
    } else {
        (args, cur.push(c), dq, sq)
    }
}

/// The splitter's state after reading `s`.
pub open spec fn split_acc(s: Seq<char>) -> SplitState
    decreases s.len(),
{
    if s.len() == 0 {
        (Seq::empty(), Seq::empty(), false, false)
    } else {
        split_step(split_acc(s.drop_last()), s.last())
    }
}

/// The arguments of a parameter string; an unclosed quote runs to the end.
pub open spec fn spec_split_args(s: Seq<char>) -> Seq<Seq<char>> {
    let (args, cur, _dq, _sq) = split_acc(s);
    if cur.len() > 0 { args.push(cur) } else { args }
}

/// Splits a command-line parameter string: spaces and tabs separate
/// arguments, double and single quotes group them and are removed.
pub fn split_args(s: &str) -> (r: Vec<String>)
    ensures
        string_views(r@) == spec_split_args(s@),
{
    let v = chars_of(s);
    let mut args: Vec<Vec<char>> = Vec::new();
    let mut cur: Vec<char> = Vec::new();
    let mut dq = false;
    let mut sq = false;
    let mut i: usize = 0;
    while i < v.len()
        invariant
            i <= v.len(),
            v@ == s@,
            (views(args@), cur@, dq, sq) == split_acc(v@.take(i as int)),
        decreases v.len() - i,
    {
        let c = v[i];
        assert(v@.take(i + 1).drop_last() =~= v@.take(i as int));
        if c == '"' && !sq {
            dq = !dq;
        } else if c == '\'' && !dq {
            sq = !sq;
        } else if (c == ' ' || c == '\t') && !dq && !sq {
            if cur.len() > 0 {
                args.push(copy(&cur));
                cur = Vec::new();
            }
        } else {
            cur.push(c);
        }
        assert(views(args@) =~= split_acc(v@.take(i + 1)).0);
        i = i + 1;
    }
    assert(v@.take(v.len() as int) =~= v@);
    if cur.len() > 0 {
        args.push(cur);
    }
    assert(views(args@) =~= spec_split_args(s@));
    strings_from(&args)
}

} // verus!
