//! Substitution of the placeholders in a strategy's `Params`.
use vstd::prelude::*;

use crate::text::{chars_of, replace_all, replace_chars, string_from};

verus! {

pub open spec fn pat_bin() -> Seq<char> {
    seq!['%', 'B', 'I', 'N', '%']
}

pub open spec fn pat_lists() -> Seq<char> {
    seq!['%', 'L', 'I', 'S', 'T', 'S', '%']
}

pub open spec fn pat_tcp() -> Seq<char> {
    seq!['%', 'G', 'a', 'm', 'e', 'F', 'i', 'l', 't', 'e', 'r', 'T', 'C', 'P', '%']
}

pub open spec fn pat_udp() -> Seq<char> {
    seq!['%', 'G', 'a', 'm', 'e', 'F', 'i', 'l', 't', 'e', 'r', 'U', 'D', 'P', '%']
}

pub open spec fn pat_excl() -> Seq<char> {
    seq!['E', 'X', 'C', 'L', '_', 'M', 'A', 'R', 'K']
}

/// `params` with `%BIN%`, `%LISTS%`, `%GameFilterTCP%`, `%GameFilterUDP%` and
/// `EXCL_MARK` replaced, in that order.
pub open spec fn spec_substitute(params: Seq<char>, bin: Seq<char>, lists: Seq<char>, tcp: Seq<char>, udp: Seq<char>) -> Seq<char> {
    let a = replace_all(params, pat_bin(), bin);
    let b = replace_all(a, pat_lists(), lists);
    let c = replace_all(b, pat_tcp(), tcp);
    let d = replace_all(c, pat_udp(), udp);
    replace_all(d, pat_excl(), seq!['!'])
}

/// Fills in a strategy's parameters: `%BIN%` and `%LISTS%` become the
/// directories, `%GameFilterTCP%`/`%GameFilterUDP%` the game port ranges, and
/// `EXCL_MARK` becomes `!`.
pub fn substitute_params(params: &str, bin: &str, lists: &str, tcp: &str, udp: &str) -> (r: String)
    ensures
        r@ == spec_substitute(params@, bin@, lists@, tcp@, udp@),
{
    let p_bin: [char; 5] = ['%', 'B', 'I', 'N', '%'];
    let p_lists: [char; 7] = ['%', 'L', 'I', 'S', 'T', 'S', '%'];
    let p_tcp: [char; 15] = ['%', 'G', 'a', 'm', 'e', 'F', 'i', 'l', 't', 'e', 'r', 'T', 'C', 'P', '%'];
    let p_udp: [char; 15] = ['%', 'G', 'a', 'm', 'e', 'F', 'i', 'l', 't', 'e', 'r', 'U', 'D', 'P', '%'];
    let p_excl: [char; 9] = ['E', 'X', 'C', 'L', '_', 'M', 'A', 'R', 'K'];
    let bang: [char; 1] = ['!'];
    assert(p_bin@ =~= pat_bin());
    assert(p_lists@ =~= pat_lists());
    assert(p_tcp@ =~= pat_tcp());
    assert(p_udp@ =~= pat_udp());
    assert(p_excl@ =~= pat_excl());
    assert(bang@ =~= seq!['!']);
    let a = replace_chars(&chars_of(params), &p_bin, &chars_of(bin));
    let b = replace_chars(&a, &p_lists, &chars_of(lists));
    let c = replace_chars(&b, &p_tcp, &chars_of(tcp));
    let d = replace_chars(&c, &p_udp, &chars_of(udp));
    let e = replace_chars(&d, &p_excl, &bang);
    string_from(&e)
}

} // verus!
