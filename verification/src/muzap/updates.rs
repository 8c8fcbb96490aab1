//! Checks on downloaded lists before they replace the local ones: an IP list
//! must hold at least one CIDR entry, a hosts source at least one hosts entry.
//! Whether an address parses (`IpAddr::from_str`) is decided by the caller,
//! which passes the result in.
use vstd::prelude::*;

use crate::error::AppError;
use crate::fmt::{parse_usize, spec_parse_usize};
use crate::text::{lemma_find_char, chars_of, is_ws, is_ws_char, lines_chars, lines_of, split_once, split_once_chars, string_from, string_views, trim, trim_vec, views};

verus! {

/// The version of a parsed IP address.
#[derive(Debug, Clone, Copy, PartialEq, Eq, Structural)]
pub enum IpKind {
    V4,
    V6,
}

/// A trimmed line that is neither blank nor a `#` or `;` comment.
pub open spec fn is_entry(t: Seq<char>) -> bool {
    t.len() > 0 && t[0] != '#' && t[0] != ';'
}

/// The trimmed entry lines of a list, in order.
pub open spec fn entries_of(ls: Seq<Seq<char>>) -> Seq<Seq<char>>
    decreases ls.len(),
{
    if ls.len() == 0 {
        Seq::empty()
    } else {
        let prev = entries_of(ls.drop_last());
        if is_entry(trim(ls.last())) { prev.push(trim(ls.last())) } else { prev }
    }
}

/// The entry lines of a downloaded list: trimmed, without blank and comment lines.
pub fn entry_lines(text: &str) -> (r: Vec<String>)
    ensures
        string_views(r@) == entries_of(lines_of(text@)),
{
    let ls = lines_chars(&chars_of(text));
    let ghost all = views(ls@);
    let mut out: Vec<String> = Vec::new();
    let mut i: usize = 0;
    while i < ls.len()
        invariant
            i <= ls.len(),
            all == views(ls@),
            all == lines_of(text@),
            string_views(out@) == entries_of(all.take(i as int)),
        decreases ls.len() - i,
    {
        assert(all.take(i + 1).drop_last() =~= all.take(i as int));
        assert(all.take(i + 1).last() == ls@[i as int]@);
        let t = trim_vec(&ls[i]);
        if t.len() > 0 && t[0] != '#' && t[0] != ';' {
            let ghost before = string_views(out@);
            out.push(string_from(&t));
            assert(string_views(out@) =~= before.push(t@));
        }
        i = i + 1;
    }
    assert(all.take(ls.len() as int) =~= all);
    out
}

/// `str::parse::<u8>`.
pub open spec fn spec_parse_u8(s: Seq<char>) -> Option<nat> {
    match spec_parse_usize(s) {
        Some(n) => if n <= 255 { Some(n) } else { None },
        None => None,
    }
}

/// The address part of a CIDR entry, trimmed: the text before the first `/`.
pub open spec fn cidr_address_of(line: Seq<char>) -> Option<Seq<char>> {
    match split_once(line, '/') {
        Some((a, _p)) => Some(trim(a)),
        None => None,
    }
}

/// `cidr_address_of`: the text whose parse the caller passes to `is_valid_cidr`.
pub fn cidr_address(line: &str) -> (r: Option<String>)
    ensures
        match r {
            Some(a) => cidr_address_of(line@) == Some(a@),
            None => cidr_address_of(line@) is None,
        },
{
    match split_once_chars(&chars_of(line), '/') {
        Some((a, _p)) => Some(string_from(&trim_vec(&a))),
        None => None,
    }
}

/// A CIDR entry: an address, `/`, and a prefix length (`u8`) of at most 32
/// for IPv4 and 128 for IPv6. `address` is the parse of `cidr_address_of(line)`.
pub open spec fn spec_valid_cidr(line: Seq<char>, address: Option<IpKind>) -> bool {
    match split_once(line, '/') {
        None => false,
        Some((_a, p)) => match address {
            None => false,
            Some(k) => match spec_parse_u8(trim(p)) {
                None => false,
                Some(n) => match k {
                    IpKind::V4 => n <= 32,
                    IpKind::V6 => n <= 128,
                },
            },
        },
    }
}

/// Whether `line` is a CIDR entry, given the parse of its address part.
pub fn is_valid_cidr(line: &str, address: Option<IpKind>) -> (r: bool)
    ensures
        r == spec_valid_cidr(line@, address),
{
    match split_once_chars(&chars_of(line), '/') {
        None => false,
        Some((_a, p)) => match address {
            None => false,
            Some(k) => match parse_usize(&trim_vec(&p)) {
                None => false,
                Some(n) => {
                    if n > 255 {
                        false
                    } else {
                        match k {
                            IpKind::V4 => n <= 32,
                            IpKind::V6 => n <= 128,
                        }
                    }
                },
            },
        },
    }
}

/// The whitespace-separated fields read so far and the field being read.
pub open spec fn fields_acc(s: Seq<char>) -> (Seq<Seq<char>>, Seq<char>)
    decreases s.len(),
{
    if s.len() == 0 {
        (Seq::empty(), Seq::empty())
    } else {
        let (done, cur) = fields_acc(s.drop_last());
        if is_ws(s.last()) {
            if cur.len() > 0 { (done.push(cur), Seq::empty()) } else { (done, cur) }
        } else {
            (done, cur.push(s.last()))
        }
    }
}

/// `str::split_whitespace`.
pub open spec fn fields_of(s: Seq<char>) -> Seq<Seq<char>> {
    let (done, cur) = fields_acc(s);
    if cur.len() > 0 { done.push(cur) } else { done }
}

/// The whitespace-separated fields of a line.
pub fn split_whitespace_chars(v: &[char]) -> (r: Vec<Vec<char>>)
    ensures
        views(r@) == fields_of(v@),
{
    let mut done: Vec<Vec<char>> = Vec::new();
    let mut cur: Vec<char> = Vec::new();
    let mut i: usize = 0;
    while i < v.len()
        invariant
            i <= v.len(),
            (views(done@), cur@) == fields_acc(v@.take(i as int)),
        decreases v.len() - i,
    {
        assert(v@.take(i + 1).drop_last() =~= v@.take(i as int));
        let c = v[i];
        if is_ws_char(c) {
            if cur.len() > 0 {
                let ghost before = views(done@);
                done.push(cur);
                cur = Vec::new();
                assert(views(done@) =~= before.push(views(done@).last()));
            }
        } else {
            cur.push(c);
        }
        i = i + 1;
    }
    assert(v@.take(v.len() as int) =~= v@);
    if cur.len() > 0 {
        let ghost before = views(done@);
        done.push(cur);
        assert(views(done@) =~= before.push(views(done@).last()));
    }
    done
}

/// The address field of a hosts entry: its first field.
pub open spec fn hosts_address_of(line: Seq<char>) -> Option<Seq<char>> {
    if fields_of(line).len() > 0 { Some(fields_of(line)[0]) } else { None }
}

/// `hosts_address_of`: the text whose parse the caller passes to `is_valid_hosts_line`.
pub fn hosts_address(line: &str) -> (r: Option<String>)
    ensures
        match r {
            Some(a) => hosts_address_of(line@) == Some(a@),
            None => hosts_address_of(line@) is None,
        },
{
    let f = split_whitespace_chars(&chars_of(line));
    if f.len() > 0 {
        Some(string_from(&f[0]))
    } else {
        None
    }
}

/// At least two bytes in UTF-8: two characters, or one outside ASCII.
pub open spec fn utf8_len_at_least_2(s: Seq<char>) -> bool {
    s.len() >= 2 || (s.len() == 1 && s[0] as u32 >= 0x80)
}

/// A hosts entry: an address field that parses, then a host name of at least
/// two bytes. `address` is the parse of `hosts_address_of(line)`.
pub open spec fn spec_valid_hosts_line(line: Seq<char>, address: Option<IpKind>) -> bool {
    fields_of(line).len() >= 2 && address is Some && utf8_len_at_least_2(fields_of(line)[1])
}

/// Whether `line` is a hosts entry, given the parse of its address field.
pub fn is_valid_hosts_line(line: &str, address: Option<IpKind>) -> (r: bool)
    ensures
        r == spec_valid_hosts_line(line@, address),
{
    let f = split_whitespace_chars(&chars_of(line));
    if f.len() < 2 {
        return false;
    }
    if address.is_none() {
        return false;
    }
    let host = &f[1];
    host.len() >= 2 || (host.len() == 1 && host[0] as u32 >= 0x80)
}

/// The number of entries `i` for which `valid(i)` holds.
pub open spec fn count_valid(flags: Seq<bool>) -> nat
    decreases flags.len(),
{
    if flags.len() == 0 {
        0
    } else {
        count_valid(flags.drop_last()) + if flags.last() { 1nat } else { 0nat }
    }
}

/// The number of CIDR entries among `lines`, where `addresses[i]` is the parse
/// of the address part of `lines[i]`.
pub fn count_valid_cidr_lines(lines: &[String], addresses: &[Option<IpKind>]) -> (r: usize)
    requires
        lines.len() == addresses.len(),
    ensures
        r == count_valid(Seq::new(lines.len() as nat, |i: int| spec_valid_cidr(lines@[i]@, addresses@[i]))),
{
    let ghost flags = Seq::new(lines.len() as nat, |i: int| spec_valid_cidr(lines@[i]@, addresses@[i]));
    let mut n: usize = 0;
    let mut i: usize = 0;
    while i < lines.len()
        invariant
            i <= lines.len() == addresses.len(),
            flags == Seq::new(lines.len() as nat, |i: int| spec_valid_cidr(lines@[i]@, addresses@[i])),
            n == count_valid(flags.take(i as int)),
            n <= i,
        decreases lines.len() - i,
    {
        assert(flags.take(i + 1).drop_last() =~= flags.take(i as int));
        if is_valid_cidr(lines[i].as_str(), addresses[i]) {
            n = n + 1;
        }
        i = i + 1;
    }
    assert(flags.take(lines.len() as int) =~= flags);
    n
}

/// The number of hosts entries among `lines`, where `addresses[i]` is the
/// parse of the first field of `lines[i]`.
pub fn count_valid_hosts_lines(lines: &[String], addresses: &[Option<IpKind>]) -> (r: usize)
    requires
        lines.len() == addresses.len(),
    ensures
        r == count_valid(Seq::new(lines.len() as nat, |i: int| spec_valid_hosts_line(lines@[i]@, addresses@[i]))),
{
    let ghost flags = Seq::new(lines.len() as nat, |i: int| spec_valid_hosts_line(lines@[i]@, addresses@[i]));
    let mut n: usize = 0;
    let mut i: usize = 0;
    while i < lines.len()
        invariant
            i <= lines.len() == addresses.len(),
            flags == Seq::new(lines.len() as nat, |i: int| spec_valid_hosts_line(lines@[i]@, addresses@[i])),
            n == count_valid(flags.take(i as int)),
            n <= i,
        decreases lines.len() - i,
    {
        assert(flags.take(i + 1).drop_last() =~= flags.take(i as int));
        if is_valid_hosts_line(lines[i].as_str(), addresses[i]) {
            n = n + 1;
        }
        i = i + 1;
    }
    assert(flags.take(lines.len() as int) =~= flags);
    n
}

/// A downloaded IP list replaces the local one only when it holds at least
/// one CIDR entry; otherwise the server is suspected.
pub fn accept_ipset_download(lines: &[String], addresses: &[Option<IpKind>]) -> (r: Result<(), AppError>)
    requires
        lines.len() == addresses.len(),
    ensures
        r is Ok <==> count_valid(Seq::new(lines.len() as nat, |i: int| spec_valid_cidr(lines@[i]@, addresses@[i]))) > 0,
        r matches Err(e) ==> (e matches AppError::Msg(m) && m@ == "Скачанный ipset-файл не содержит ни одной CIDR-записи (возможна ошибка сервера)."@),
{
    if count_valid_cidr_lines(lines, addresses) == 0 {
        return Err(AppError::msg("Скачанный ipset-файл не содержит ни одной CIDR-записи (возможна ошибка сервера)."));
    }
    Ok(())
}

/// A downloaded hosts source is applied only when it holds at least one hosts entry.
pub fn accept_hosts_download(lines: &[String], addresses: &[Option<IpKind>]) -> (r: Result<(), AppError>)
    requires
        lines.len() == addresses.len(),
    ensures
        r is Ok <==> count_valid(Seq::new(lines.len() as nat, |i: int| spec_valid_hosts_line(lines@[i]@, addresses@[i]))) > 0,
        r matches Err(e) ==> (e matches AppError::Msg(m) && m@ == "Скачанный hosts-источник не похож на hosts-записи (возможна ошибка сервера)."@),
{
    if count_valid_hosts_lines(lines, addresses) == 0 {
        return Err(AppError::msg("Скачанный hosts-источник не похож на hosts-записи (возможна ошибка сервера)."));
    }
    Ok(())
}

/// A CIDR entry is an address, `/`, and a prefix length: for a line
/// `ADDRESS/PREFIX` (the address part holding no `/`), the address looked at
/// is ADDRESS trimmed, and the line is an entry exactly when that address
/// parses and PREFIX (trimmed) is a number of at most 32 for IPv4 and at most
/// 128 for IPv6. A line without `/` is no entry.
pub proof fn law_cidr_entries(address: Seq<char>, prefix: Seq<char>, kind: Option<IpKind>, plain: Seq<char>)
    requires
        forall|i: int| 0 <= i < address.len() ==> address[i] != '/',
    ensures
        cidr_address_of(address + seq!['/'] + prefix) == Some(trim(address)),
        spec_valid_cidr(address + seq!['/'] + prefix, kind) <==> match kind {
            None => false,
            Some(k) => match spec_parse_u8(trim(prefix)) {
                None => false,
                Some(n) => n <= (if k == IpKind::V4 { 32nat } else { 128nat }),
            },
        },
        (forall|i: int| 0 <= i < plain.len() ==> plain[i] != '/') ==> !spec_valid_cidr(plain, kind) && cidr_address_of(plain) is None,
{
    let line = address + seq!['/'] + prefix;
    lemma_find_char(line, '/', address.len() as int);
    assert(line.take(address.len() as int) =~= address);
    assert(line.skip(address.len() as int + 1) =~= prefix);
    if forall|i: int| 0 <= i < plain.len() ==> plain[i] != '/' {
        lemma_find_char(plain, '/', plain.len() as int);
    }
}

} // verus!
