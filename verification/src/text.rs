//! Text model shared by the parsers: strings are sequences of `char`, and the
//! handful of `str` operations the configuration formats rely on (`lines`,
//! `trim`, ASCII case folding, `split_once`, `replace`, joining) are defined
//! here as spec functions, each with an executable counterpart proved equal to it.
use vstd::prelude::*;

verus! {

/// The characters for which `char::is_whitespace` holds (Unicode `White_Space`).
pub open spec fn is_ws(c: char) -> bool {
    ||| c == '\t' || c == '\n' || c == '\x0B' || c == '\x0C' || c == '\r' || c == ' '
    ||| c == '\u{85}' || c == '\u{A0}' || c == '\u{1680}'
    ||| ('\u{2000}' <= c && c <= '\u{200A}')
    ||| c == '\u{2028}' || c == '\u{2029}' || c == '\u{202F}' || c == '\u{205F}'
    ||| c == '\u{3000}'
}

/// `str::trim_start`: drops leading whitespace.
pub open spec fn trim_start(s: Seq<char>) -> Seq<char>
    decreases s.len(),
{
    if s.len() > 0 && is_ws(s[0]) {
        trim_start(s.drop_first())
    } else {
        s
    }
}

/// `str::trim_end`: drops trailing whitespace.
pub open spec fn trim_end(s: Seq<char>) -> Seq<char>
    decreases s.len(),
{
    if s.len() > 0 && is_ws(s.last()) {
        trim_end(s.drop_last())
    } else {
        s
    }
}

/// `str::trim`: drops leading and trailing whitespace.
pub open spec fn trim(s: Seq<char>) -> Seq<char> {
    trim_end(trim_start(s))
}

/// `char::to_ascii_lowercase`.
pub open spec fn lower_c(c: char) -> char {
    if 'A' <= c && c <= 'Z' {
        ((c as u32) + 32) as char
    } else {
        c
    }
}

/// `str::to_ascii_lowercase`.
pub open spec fn lower(s: Seq<char>) -> Seq<char> {
    s.map_values(|c: char| lower_c(c))
}

/// `char::to_ascii_uppercase`.
pub open spec fn upper_c(c: char) -> char {
    if 'a' <= c && c <= 'z' { ((c as u32) - 32) as char } else { c }
}

/// `str::to_ascii_uppercase`.
pub open spec fn upper(s: Seq<char>) -> Seq<char> {
    s.map_values(|c: char| upper_c(c))
}

/// `str::eq_ignore_ascii_case`.
pub open spec fn eq_ic(a: Seq<char>, b: Seq<char>) -> bool {
    lower(a) == lower(b)
}

/// `s.starts_with(p)`.
pub open spec fn starts_with(s: Seq<char>, p: Seq<char>) -> bool {
    p.len() <= s.len() && s.take(p.len() as int) == p
}

/// `s.ends_with(p)`.
pub open spec fn ends_with(s: Seq<char>, p: Seq<char>) -> bool {
    p.len() <= s.len() && s.skip(s.len() - p.len()) == p
}

/// `s.contains(p)`.
pub open spec fn contains(s: Seq<char>, p: Seq<char>) -> bool {
    exists|i: int| 0 <= i && i + p.len() <= s.len() && #[trigger] s.subrange(i, i + p.len()) == p
}

/// Index of the first occurrence of `c` in `s`.
pub open spec fn find_char(s: Seq<char>, c: char) -> Option<int>
    decreases s.len(),
{
    if s.len() == 0 {
        None
    } else if s[0] == c {
        Some(0)
    } else {
        match find_char(s.drop_first(), c) {
            Some(i) => Some(i + 1),
            None => None,
        }
    }
}

/// `s.split_once(c)`: the parts before and after the first `c`.
pub open spec fn split_once(s: Seq<char>, c: char) -> Option<(Seq<char>, Seq<char>)> {
    match find_char(s, c) {
        Some(i) => Some((s.take(i), s.skip(i + 1))),
        None => None,
    }
}

/// `s.trim_start_matches(c)` for a single character.
pub open spec fn trim_start_c(s: Seq<char>, c: char) -> Seq<char>
    decreases s.len(),
{
    if s.len() > 0 && s[0] == c {
        trim_start_c(s.drop_first(), c)
    } else {
        s
    }
}

/// `s.trim_end_matches(c)` for a single character.
pub open spec fn trim_end_c(s: Seq<char>, c: char) -> Seq<char>
    decreases s.len(),
{
    if s.len() > 0 && s.last() == c {
        trim_end_c(s.drop_last(), c)
    } else {
        s
    }
}

/// `s.trim_matches(c)` for a single character.
pub open spec fn trim_c(s: Seq<char>, c: char) -> Seq<char> {
    trim_end_c(trim_start_c(s, c), c)
}

/// `s.trim_start_matches(p)` for a non-empty string `p`: every leading copy removed.
pub open spec fn trim_start_str(s: Seq<char>, p: Seq<char>) -> Seq<char>
    decreases s.len(),
{
    if p.len() > 0 && starts_with(s, p) {
        trim_start_str(s.skip(p.len() as int), p)
    } else {
        s
    }
}

/// `s.split(c).next()`: the part before the first `c`, or all of `s`.
pub open spec fn before_char(s: Seq<char>, c: char) -> Seq<char> {
    match find_char(s, c) {
        Some(i) => s.take(i),
        None => s,
    }
}

/// A line without the `\r` of a CRLF ending.
pub open spec fn strip_cr(l: Seq<char>) -> Seq<char> {
    if l.len() > 0 && l.last() == '\r' {
        l.drop_last()
    } else {
        l
    }
}

/// The lines finished so far and the line being read, after reading `s`.
pub open spec fn lines_acc(s: Seq<char>) -> (Seq<Seq<char>>, Seq<char>)
    decreases s.len(),
{
    if s.len() == 0 {
        (Seq::empty(), Seq::empty())
    } else {
        let (done, cur) = lines_acc(s.drop_last());
        if s.last() == '\n' {
            (done.push(strip_cr(cur)), Seq::empty())
        } else {
            (done, cur.push(s.last()))
        }
    }
}

/// `str::lines`: split at `\n` or `\r\n`; a final line ending adds no empty line.
pub open spec fn lines_of(s: Seq<char>) -> Seq<Seq<char>> {
    let (done, cur) = lines_acc(s);
    if cur.len() > 0 {
        done.push(cur)
    } else {
        done
    }
}

/// `slice.join(sep)` for a sequence of strings.
pub open spec fn join(ls: Seq<Seq<char>>, sep: Seq<char>) -> Seq<char>
    decreases ls.len(),
{
    if ls.len() == 0 {
        Seq::empty()
    } else if ls.len() == 1 {
        ls[0]
    } else {
        join(ls.drop_last(), sep) + sep + ls.last()
    }
}

/// `str::replace(pat, rep)`: every non-overlapping occurrence of `pat`, from the
/// left, replaced by `rep` (`pat` is never empty where this is used).
pub open spec fn replace_all(s: Seq<char>, pat: Seq<char>, rep: Seq<char>) -> Seq<char>
    decreases s.len(),
{
    if pat.len() == 0 || s.len() < pat.len() {
        s
    } else if s.take(pat.len() as int) == pat {
        rep + replace_all(s.skip(pat.len() as int), pat, rep)
    } else {
        seq![s[0]] + replace_all(s.drop_first(), pat, rep)
    }
}

/// The views of a sequence of character vectors.
pub open spec fn views(v: Seq<Vec<char>>) -> Seq<Seq<char>> {
    v.map_values(|l: Vec<char>| l@)
}

/// The views of a sequence of strings.
pub open spec fn string_views(v: Seq<String>) -> Seq<Seq<char>> {
    v.map_values(|l: String| l@)
}

// ------------------------------------------------------------------------
// Lemmas
// ------------------------------------------------------------------------

pub proof fn lemma_find_char(s: Seq<char>, c: char, i: int)
    requires
        0 <= i <= s.len(),
        forall|j: int| 0 <= j < i ==> s[j] != c,
        i < s.len() ==> s[i] == c,
    ensures
        find_char(s, c) == (if i < s.len() { Some(i) } else { None::<int> }),
    decreases i,
{
    if i > 0 {
        lemma_find_char(s.drop_first(), c, i - 1);
    }
}

/// Replacing a character by text without it leaves none of it.
pub proof fn lemma_replace_char_gone(s: Seq<char>, c: char, rep: Seq<char>)
    requires
        forall|i: int| 0 <= i < rep.len() ==> rep[i] != c,
    ensures
        forall|i: int| 0 <= i < replace_all(s, seq![c], rep).len() ==> replace_all(s, seq![c], rep)[i] != c,
    decreases s.len(),
{
    let r = replace_all(s, seq![c], rep);
    if s.len() >= 1 {
        if s.take(1) == seq![c] {
            lemma_replace_char_gone(s.skip(1), c, rep);
            let t = replace_all(s.skip(1), seq![c], rep);
            assert(r == rep + t);
            assert forall|i: int| 0 <= i < r.len() implies r[i] != c by {
                if i >= rep.len() {
                    assert(r[i] == t[i - rep.len()]);
                }
            }
        } else {
            lemma_replace_char_gone(s.drop_first(), c, rep);
            let t = replace_all(s.drop_first(), seq![c], rep);
            assert(s.take(1) =~= seq![s[0]]);
            assert(r == seq![s[0]] + t);
            assert forall|i: int| 0 <= i < r.len() implies r[i] != c by {
                if i >= 1 {
                    assert(r[i] == t[i - 1]);
                }
            }
        }
    }
}

/// Text without the character is left as it is.
pub proof fn lemma_replace_char_absent(s: Seq<char>, c: char, rep: Seq<char>)
    requires
        forall|i: int| 0 <= i < s.len() ==> s[i] != c,
    ensures
        replace_all(s, seq![c], rep) == s,
    decreases s.len(),
{
    if s.len() >= 1 {
        assert(s.take(1)[0] == s[0]);
        assert(s.take(1) != seq![c]);
        lemma_replace_char_absent(s.drop_first(), c, rep);
        assert(seq![s[0]] + s.drop_first() =~= s);
    }
}

/// Stripping a prefix repeatedly leaves a suffix that no longer starts with it.
pub proof fn lemma_trim_start_str_suffix(s: Seq<char>, p: Seq<char>)
    ensures
        exists|k: int| 0 <= k <= s.len() && trim_start_str(s, p) == #[trigger] s.skip(k),
        p.len() > 0 ==> !starts_with(trim_start_str(s, p), p),
        !starts_with(s, p) ==> trim_start_str(s, p) == s,
    decreases s.len(),
{
    if p.len() > 0 && starts_with(s, p) {
        let t = s.skip(p.len() as int);
        lemma_trim_start_str_suffix(t, p);
        let k = choose|k: int| 0 <= k <= t.len() && trim_start_str(t, p) == #[trigger] t.skip(k);
        assert(t.skip(k) =~= s.skip(p.len() + k));
    } else {
        assert(s.skip(0) =~= s);
    }
}

pub proof fn lemma_trim_start_step(s: Seq<char>, a: int)
    requires
        0 <= a < s.len(),
        is_ws(s[a]),
    ensures
        trim_start(s.subrange(a, s.len() as int)) == trim_start(s.subrange(a + 1, s.len() as int)),
{
    assert(s.subrange(a, s.len() as int).drop_first() =~= s.subrange(a + 1, s.len() as int));
}

pub proof fn lemma_trim_end_step(s: Seq<char>, a: int, b: int)
    requires
        0 <= a < b <= s.len(),
        is_ws(s[b - 1]),
    ensures
        trim_end(s.subrange(a, b)) == trim_end(s.subrange(a, b - 1)),
{
    assert(s.subrange(a, b).drop_last() =~= s.subrange(a, b - 1));
}

// ------------------------------------------------------------------------
// Executable operations
// ------------------------------------------------------------------------

/// The characters of a string slice.
pub fn chars_of(s: &str) -> (r: Vec<char>)
    ensures
        r@ == s@,
{
    let mut r: Vec<char> = Vec::new();
    for c in it: s.chars()
        invariant
            it.seq() == s@,
            r@ == it.seq().take(it.index() as int),
    {
        r.push(c);
    }
    r
}

/// `String: FromIterator<char>`, collecting a slice of characters.
#[verifier::external_body]
pub(crate) fn string_from(v: &[char]) -> (s: String)
    ensures
        s@ == v@,
{
    v.iter().collect::<String>()
}

/// Each character vector as a string.
pub fn strings_from(v: &Vec<Vec<char>>) -> (r: Vec<String>)
    ensures
        string_views(r@) == views(v@),
{
    let mut r: Vec<String> = Vec::new();
    let mut j: usize = 0;
    while j < v.len()
        invariant
            j <= v.len(),
            string_views(r@) == views(v@).take(j as int),
        decreases v.len() - j,
    {
        let s = string_from(&v[j]);
        let ghost before = r@;
        r.push(s);
        assert(string_views(r@) =~= views(v@).take(j + 1)) by {
            assert(string_views(r@) =~= string_views(before).push(s@));
        }
        j = j + 1;
    }
    assert(views(v@).take(v.len() as int) =~= views(v@));
    r
}

/// An owned copy of a string slice.
pub fn to_string(s: &str) -> (r: String)
    ensures
        r@ == s@,
{
    s.to_owned()
}

/// `char::is_whitespace`.
pub fn is_ws_char(c: char) -> (r: bool)
    ensures
        r == is_ws(c),
{
    c == '\t' || c == '\n' || c == '\x0B' || c == '\x0C' || c == '\r' || c == ' ' || c == '\u{85}'
        || c == '\u{A0}' || c == '\u{1680}' || ('\u{2000}' <= c && c <= '\u{200A}') || c
        == '\u{2028}' || c == '\u{2029}' || c == '\u{202F}' || c == '\u{205F}' || c == '\u{3000}'
}

/// `char::to_ascii_lowercase`.
pub fn lower_char(c: char) -> (r: char)
    ensures
        r == lower_c(c),
{
    if 'A' <= c && c <= 'Z' {
        let b: u8 = c as u8;
        (b + 32) as char
    } else {
        c
    }
}

/// A copy of `v[lo..hi]`.
pub fn slice_of(v: &[char], lo: usize, hi: usize) -> (r: Vec<char>)
    requires
        lo <= hi <= v.len(),
    ensures
        r@ == v@.subrange(lo as int, hi as int),
{
    let mut r: Vec<char> = Vec::new();
    let mut i = lo;
    while i < hi
        invariant
            lo <= i <= hi <= v.len(),
            r@ == v@.subrange(lo as int, i as int),
        decreases hi - i,
    {
        r.push(v[i]);
        i = i + 1;
    }
    r
}

/// A copy of a character slice.
pub fn copy(v: &[char]) -> (r: Vec<char>)
    ensures
        r@ == v@,
{
    let r = slice_of(v, 0, v.len());
    assert(v@.subrange(0, v@.len() as int) =~= v@);
    r
}

/// The bounds `a..b` of `v.trim()` inside `v`.
pub fn trim_bounds(v: &[char]) -> (r: (usize, usize))
    ensures
        r.0 <= r.1 <= v.len(),
        v@.subrange(r.0 as int, r.1 as int) == trim(v@),
        v@.subrange(r.0 as int, v.len() as int) == trim_start(v@),
{
    let n = v.len();
    let mut a: usize = 0;
    assert(v@.subrange(0, n as int) =~= v@);
    while a < n && is_ws_char(v[a])
        invariant
            a <= n == v.len(),
            trim_start(v@) == trim_start(v@.subrange(a as int, n as int)),
        decreases n - a,
    {
        proof {
            lemma_trim_start_step(v@, a as int);
        }
        a = a + 1;
    }
    let ghost ts = v@.subrange(a as int, n as int);
    assert(trim_start(ts) == ts) by {
        if ts.len() > 0 {
            assert(ts[0] == v@[a as int]);
        }
    }
    let mut b: usize = n;
    while b > a && is_ws_char(v[b - 1])
        invariant
            a <= b <= n == v.len(),
            trim_end(ts) == trim_end(v@.subrange(a as int, b as int)),
            ts == v@.subrange(a as int, n as int),
        decreases b - a,
    {
        proof {
            lemma_trim_end_step(v@, a as int, b as int);
        }
        b = b - 1;
    }
    let ghost te = v@.subrange(a as int, b as int);
    assert(trim_end(te) == te) by {
        if te.len() > 0 {
            assert(te.last() == v@[b - 1]);
        }
    }
    (a, b)
}

/// `v.trim()` as a new vector.
pub fn trim_vec(v: &[char]) -> (r: Vec<char>)
    ensures
        r@ == trim(v@),
{
    let (a, b) = trim_bounds(v);
    slice_of(v, a, b)
}

/// `v.trim_start()` as a new vector.
pub fn trim_start_vec(v: &[char]) -> (r: Vec<char>)
    ensures
        r@ == trim_start(v@),
{
    let (a, _b) = trim_bounds(v);
    slice_of(v, a, v.len())
}

/// `v.trim_end()` as a new vector.
pub fn trim_end_vec(v: &[char]) -> (r: Vec<char>)
    ensures
        r@ == trim_end(v@),
{
    let n = v.len();
    let mut b: usize = n;
    assert(v@.subrange(0, n as int) =~= v@);
    while b > 0 && is_ws_char(v[b - 1])
        invariant
            b <= n == v.len(),
            trim_end(v@) == trim_end(v@.subrange(0, b as int)),
        decreases b,
    {
        proof {
            lemma_trim_end_step(v@, 0, b as int);
        }
        b = b - 1;
    }
    let ghost te = v@.subrange(0, b as int);
    assert(trim_end(te) == te) by {
        if te.len() > 0 {
            assert(te.last() == v@[b - 1]);
        }
    }
    slice_of(v, 0, b)
}

/// Whether `v` equals the string `lit`.
pub fn eq_str(v: &[char], lit: &str) -> (r: bool)
    ensures
        r == (v@ == lit@),
{
    let l = chars_of(lit);
    eq_chars(v, &l)
}

/// `v.trim_matches(c)` as a new vector.
pub fn trim_c_vec(v: &[char], c: char) -> (r: Vec<char>)
    ensures
        r@ == trim_c(v@, c),
{
    let n = v.len();
    let mut a: usize = 0;
    assert(v@.subrange(0, n as int) =~= v@);
    while a < n && v[a] == c
        invariant
            a <= n == v.len(),
            trim_start_c(v@, c) == trim_start_c(v@.subrange(a as int, n as int), c),
        decreases n - a,
    {
        assert(v@.subrange(a as int, n as int).drop_first() =~= v@.subrange(a + 1, n as int));
        a = a + 1;
    }
    let ghost ts = v@.subrange(a as int, n as int);
    assert(trim_start_c(ts, c) == ts) by {
        if ts.len() > 0 {
            assert(ts[0] == v@[a as int]);
        }
    }
    let mut b: usize = n;
    while b > a && v[b - 1] == c
        invariant
            a <= b <= n == v.len(),
            trim_end_c(ts, c) == trim_end_c(v@.subrange(a as int, b as int), c),
        decreases b - a,
    {
        assert(v@.subrange(a as int, b as int).drop_last() =~= v@.subrange(a as int, b - 1));
        b = b - 1;
    }
    let ghost te = v@.subrange(a as int, b as int);
    assert(trim_end_c(te, c) == te) by {
        if te.len() > 0 {
            assert(te.last() == v@[b - 1]);
        }
    }
    slice_of(v, a, b)
}

/// `v.trim_start_matches(p)` for a non-empty `p`, as a new vector.
pub fn trim_start_str_vec(v: &[char], p: &[char]) -> (r: Vec<char>)
    requires
        p.len() > 0,
    ensures
        r@ == trim_start_str(v@, p@),
{
    let n = v.len();
    let mut a: usize = 0;
    assert(v@.subrange(0, n as int) =~= v@);
    loop
        invariant
            a <= n == v.len(),
            p.len() > 0,
            trim_start_str(v@, p@) == trim_start_str(v@.subrange(a as int, n as int), p@),
        decreases n - a,
    {
        let rest = slice_of(v, a, n);
        if starts_with_chars(&rest, p) {
            assert(rest@.skip(p.len() as int) =~= v@.subrange(a + p.len(), n as int));
            a = a + p.len();
        } else {
            return rest;
        }
    }
}

/// `v.split(c).next()` as a new vector.
pub fn before_char_vec(v: &[char], c: char) -> (r: Vec<char>)
    ensures
        r@ == before_char(v@, c),
{
    match find_char_exec(v, c) {
        Some(i) => {
            let r = slice_of(v, 0, i);
            assert(r@ =~= v@.take(i as int));
            r
        },
        None => copy(v),
    }
}

/// `v.strip_prefix(p)`.
pub fn strip_prefix_vec(v: &[char], p: &[char]) -> (r: Option<Vec<char>>)
    ensures
        match r {
            Some(rest) => starts_with(v@, p@) && rest@ == v@.skip(p.len() as int),
            None => !starts_with(v@, p@),
        },
{
    if starts_with_chars(v, p) {
        let rest = slice_of(v, p.len(), v.len());
        assert(rest@ =~= v@.skip(p.len() as int));
        Some(rest)
    } else {
        None
    }
}

/// `v.to_ascii_lowercase()` as a new vector.
pub fn lower_vec(v: &[char]) -> (r: Vec<char>)
    ensures
        r@ == lower(v@),
{
    let mut r: Vec<char> = Vec::new();
    let mut i: usize = 0;
    while i < v.len()
        invariant
            i <= v.len(),
            r@ == lower(v@.take(i as int)),
        decreases v.len() - i,
    {
        let c = lower_char(v[i]);
        r.push(c);
        i = i + 1;
        assert(lower(v@.take(i as int)) =~= lower(v@.take(i - 1)).push(c));
    }
    assert(v@.take(v.len() as int) =~= v@);
    r
}

/// `v.to_ascii_uppercase()` as a new vector.
pub fn upper_vec(v: &[char]) -> (r: Vec<char>)
    ensures
        r@ == upper(v@),
{
    let mut r: Vec<char> = Vec::new();
    let mut i: usize = 0;
    while i < v.len()
        invariant
            i <= v.len(),
            r@ == upper(v@.take(i as int)),
        decreases v.len() - i,
    {
        let c = v[i];
        let u = if 'a' <= c && c <= 'z' {
            let b: u8 = c as u8;
            (b - 32) as char
        } else {
            c
        };
        r.push(u);
        i = i + 1;
        assert(upper(v@.take(i as int)) =~= upper(v@.take(i - 1)).push(u));
    }
    assert(v@.take(v.len() as int) =~= v@);
    r
}

/// `a == b` on character slices.
pub fn eq_chars(a: &[char], b: &[char]) -> (r: bool)
    ensures
        r == (a@ == b@),
{
    if a.len() != b.len() {
        return false;
    }
    let mut i: usize = 0;
    while i < a.len()
        invariant
            a.len() == b.len(),
            i <= a.len(),
            forall|j: int| 0 <= j < i ==> a@[j] == b@[j],
        decreases a.len() - i,
    {
        if a[i] != b[i] {
            return false;
        }
        i = i + 1;
    }
    assert(a@ =~= b@);
    true
}

/// `a.eq_ignore_ascii_case(b)` on character slices.
pub fn eq_ic_chars(a: &[char], b: &[char]) -> (r: bool)
    ensures
        r == eq_ic(a@, b@),
{
    let la = lower_vec(a);
    let lb = lower_vec(b);
    eq_chars(&la, &lb)
}

/// `v.starts_with(p)`.
pub fn starts_with_chars(v: &[char], p: &[char]) -> (r: bool)
    ensures
        r == starts_with(v@, p@),
{
    if p.len() > v.len() {
        return false;
    }
    let head = slice_of(v, 0, p.len());
    eq_chars(&head, p)
}

/// `v.ends_with(p)`.
pub fn ends_with_chars(v: &[char], p: &[char]) -> (r: bool)
    ensures
        r == ends_with(v@, p@),
{
    if p.len() > v.len() {
        return false;
    }
    let tail = slice_of(v, v.len() - p.len(), v.len());
    assert(v@.skip(v.len() - p.len()) =~= v@.subrange(v.len() - p.len(), v.len() as int));
    eq_chars(&tail, p)
}

/// `v.contains(p)` for a substring `p`.
pub fn contains_chars(v: &[char], p: &[char]) -> (r: bool)
    ensures
        r == contains(v@, p@),
{
    if p.len() > v.len() {
        return false;
    }
    if p.len() == 0 {
        assert(v@.subrange(0int, 0int + p@.len()) =~= p@);
        return true;
    }
    let mut i: usize = 0;
    while i <= v.len() - p.len()
        invariant
            0 < p.len() <= v.len(),
            i <= v.len() - p.len() + 1,
            forall|j: int|
                0 <= j < i ==> #[trigger] v@.subrange(j, j + p.len()) != p@,
        decreases v.len() - i,
    {
        let w = slice_of(v, i, i + p.len());
        if eq_chars(&w, p) {
            assert(v@.subrange(i as int, i + p@.len()) == p@);
            return true;
        }
        i = i + 1;
    }
    assert forall|j: int| 0 <= j && j + p.len() <= v.len() implies #[trigger] v@.subrange(
        j,
        j + p.len(),
    ) != p@ by {}
    false
}

/// `v.find(c)`: index of the first `c`.
pub fn find_char_exec(v: &[char], c: char) -> (r: Option<usize>)
    ensures
        match r {
            Some(i) => i < v.len() && find_char(v@, c) == Some(i as int),
            None => find_char(v@, c) == None::<int>,
        },
{
    let mut i: usize = 0;
    while i < v.len()
        invariant
            i <= v.len(),
            forall|j: int| 0 <= j < i ==> v@[j] != c,
        decreases v.len() - i,
    {
        if v[i] == c {
            proof {
                lemma_find_char(v@, c, i as int);
            }
            return Some(i);
        }
        i = i + 1;
    }
    proof {
        lemma_find_char(v@, c, i as int);
    }
    None
}

/// `v.split_once(c)`.
pub fn split_once_chars(v: &[char], c: char) -> (r: Option<(Vec<char>, Vec<char>)>)
    ensures
        match r {
            Some((a, b)) => split_once(v@, c) == Some((a@, b@)),
            None => split_once(v@, c) is None,
        },
{
    match find_char_exec(v, c) {
        Some(i) => {
            let a = slice_of(v, 0, i);
            let b = slice_of(v, i + 1, v.len());
            assert(a@ =~= v@.take(i as int));
            assert(b@ =~= v@.skip(i + 1));
            Some((a, b))
        },
        None => None,
    }
}

/// `v.lines()`, each line as a vector.
pub fn lines_chars(v: &[char]) -> (r: Vec<Vec<char>>)
    ensures
        views(r@) == lines_of(v@),
{
    let mut done: Vec<Vec<char>> = Vec::new();
    let mut cur: Vec<char> = Vec::new();
    let mut i: usize = 0;
    while i < v.len()
        invariant
            i <= v.len(),
            (views(done@), cur@) == lines_acc(v@.take(i as int)),
        decreases v.len() - i,
    {
        let c = v[i];
        assert(v@.take(i + 1).drop_last() =~= v@.take(i as int));
        if c == '\n' {
            let n = cur.len();
            let line = if n > 0 && cur[n - 1] == '\r' {
                slice_of(&cur, 0, n - 1)
            } else {
                copy(&cur)
            };
            assert(line@ == strip_cr(cur@)) by {
                if n > 0 && cur@[n - 1] == '\r' {
                    assert(cur@.drop_last() =~= cur@.subrange(0, n - 1));
                }
            }
            done.push(line);
            cur = Vec::new();
            assert(views(done@) =~= lines_acc(v@.take(i + 1)).0);
        } else {
            cur.push(c);
        }
        i = i + 1;
    }
    assert(v@.take(v.len() as int) =~= v@);
    if cur.len() > 0 {
        done.push(cur);
        assert(views(done@) =~= lines_of(v@));
    }
    done
}

/// `lines.join(sep)`.
pub fn join_chars(ls: &Vec<Vec<char>>, sep: &[char]) -> (r: Vec<char>)
    ensures
        r@ == join(views(ls@), sep@),
{
    let mut r: Vec<char> = Vec::new();
    let mut i: usize = 0;
    while i < ls.len()
        invariant
            i <= ls.len(),
            r@ == join(views(ls@).take(i as int), sep@),
        decreases ls.len() - i,
    {
        let ghost prev = views(ls@).take(i as int);
        if i > 0 {
            append_chars(&mut r, sep);
        }
        append_chars(&mut r, &ls[i]);
        i = i + 1;
        proof {
            let now = views(ls@).take(i as int);
            assert(now.drop_last() =~= prev);
            if i == 1 {
                assert(now.len() == 1);
            }
        }
    }
    assert(views(ls@).take(ls.len() as int) =~= views(ls@));
    r
}

/// Appends the characters of `s` to `v`.
pub fn append_chars(v: &mut Vec<char>, s: &[char])
    ensures
        final(v)@ == old(v)@ + s@,
{
    let mut i: usize = 0;
    let ghost start = v@;
    while i < s.len()
        invariant
            i <= s.len(),
            v@ == start + s@.take(i as int),
        decreases s.len() - i,
    {
        v.push(s[i]);
        i = i + 1;
        assert(start + s@.take(i as int) =~= (start + s@.take(i - 1)).push(s@[i - 1]));
    }
    assert(s@.take(s.len() as int) =~= s@);
}

/// `v.replace(pat, rep)` for a non-empty `pat`.
pub fn replace_chars(v: &[char], pat: &[char], rep: &[char]) -> (r: Vec<char>)
    requires
        pat.len() > 0,
    ensures
        r@ == replace_all(v@, pat@, rep@),
{
    let mut r: Vec<char> = Vec::new();
    let mut i: usize = 0;
    let n = v.len();
    assert(v@.skip(0) =~= v@);
    while i < n
        invariant
            i <= n == v.len(),
            pat.len() > 0,
            r@ + replace_all(v@.skip(i as int), pat@, rep@) == replace_all(v@, pat@, rep@),
        decreases n - i,
    {
        let ghost rest = v@.skip(i as int);
        let m = pat.len();
        if m <= n - i {
            let w = slice_of(v, i, i + m);
            assert(rest.take(m as int) =~= w@);
            if eq_chars(&w, pat) {
                let ghost r0 = r@;
                append_chars(&mut r, rep);
                assert(rest.skip(m as int) =~= v@.skip(i + m));
                let ghost tail = replace_all(v@.skip(i + m), pat@, rep@);
                assert(replace_all(rest, pat@, rep@) == rep@ + tail);
                assert(r0 + (rep@ + tail) =~= r@ + tail);
                i = i + m;
                continue;
            }
        }
        let ghost r0 = r@;
        r.push(v[i]);
        assert(rest.drop_first() =~= v@.skip(i + 1));
        let ghost tail = replace_all(v@.skip(i + 1), pat@, rep@);
        assert(replace_all(rest, pat@, rep@) == seq![v@[i as int]] + tail);
        assert(r0 + (seq![v@[i as int]] + tail) =~= r@ + tail);
        i = i + 1;
    }
    assert(v@.skip(n as int) =~= Seq::<char>::empty());
    assert(r@ + Seq::<char>::empty() =~= r@);
    r
}

} // verus!
