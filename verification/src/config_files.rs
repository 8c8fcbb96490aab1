//! Parsing `strategies.ini` and `targets.txt`.
use vstd::prelude::*;

use crate::error::CoreError;
use crate::ini::{header_inner, is_header};
use crate::text::{
    before_char, before_char_vec, chars_of, eq_str, lines_chars, lines_of, lower, lower_vec,
    slice_of, split_once, split_once_chars, starts_with, string_from, strip_prefix_vec, to_string,
    trim, trim_c, trim_c_vec, trim_start_str, trim_start_str_vec, trim_vec, views, lemma_find_char,
};

verus! {

/// One strategy of `strategies.ini`.
#[derive(Debug, Clone)]
pub struct Strategy {
    pub name: String,
    pub description: String,
    pub params: String,
}

/// A strategy as text.
pub struct StrategyView {
    pub name: Seq<char>,
    pub description: Seq<char>,
    pub params: Seq<char>,
}

impl View for Strategy {
    type V = StrategyView;

    open spec fn view(&self) -> StrategyView {
        StrategyView { name: self.name@, description: self.description@, params: self.params@ }
    }
}

/// One target of `targets.txt`: a URL to fetch and ping, or a host to ping only.
#[derive(Debug, Clone)]
pub struct Target {
    pub name: String,
    pub url: Option<String>,
    pub ping_target: String,
}

/// A target as text.
pub struct TargetView {
    pub name: Seq<char>,
    pub url: Option<Seq<char>>,
    pub ping_target: Seq<char>,
}

impl View for Target {
    type V = TargetView;

    open spec fn view(&self) -> TargetView {
        TargetView {
            name: self.name@,
            url: match self.url {
                Some(u) => Some(u@),
                None => None,
            },
            ping_target: self.ping_target@,
        }
    }
}

pub open spec fn strategy_views(v: Seq<Strategy>) -> Seq<StrategyView> {
    v.map_values(|s: Strategy| s@)
}

pub open spec fn target_views(v: Seq<Target>) -> Seq<TargetView> {
    v.map_values(|t: Target| t@)
}

// ------------------------------------------------------------------------
// strategies.ini
// ------------------------------------------------------------------------

/// Parser state: strategies kept so far and the section being read.
pub type StrategiesState = (Seq<StrategyView>, Option<StrategyView>);

/// A finished section is kept only when it has `Params`.
pub open spec fn keep(done: Seq<StrategyView>, cur: Option<StrategyView>) -> Seq<StrategyView> {
    match cur {
        Some(s) => if s.params.len() > 0 { done.push(s) } else { done },
        None => done,
    }
}

pub open spec fn lit_description() -> Seq<char> {
    seq!['d', 'e', 's', 'c', 'r', 'i', 'p', 't', 'i', 'o', 'n']
}

pub open spec fn lit_params() -> Seq<char> {
    seq!['p', 'a', 'r', 'a', 'm', 's']
}

/// The parser's handling of one line: blank and `;`/`#` lines are skipped, a
/// `[NAME]` line starts a section, and inside a section `Description=` and
/// `Params=` (key case-insensitive, both sides trimmed) are recorded.
pub open spec fn strategies_step(st: StrategiesState, line: Seq<char>) -> StrategiesState {
    let (done, cur) = st;
    let t = trim(line);
    if t.len() == 0 || t[0] == ';' || t[0] == '#' {
        st
    } else if is_header(t) {
        (keep(done, cur), Some(StrategyView { name: header_inner(t), description: Seq::empty(), params: Seq::empty() }))
    } else {
        match (cur, split_once(t, '=')) {
            (Some(s), Some((k, v))) => {
                let key = lower(trim(k));
                if key == lit_description() {
                    (done, Some(StrategyView { description: trim(v), ..s }))
                } else if key == lit_params() {
                    (done, Some(StrategyView { params: trim(v), ..s }))
                } else {
                    st
                }
            },
            _ => st,
        }
    }
}

pub open spec fn strategies_acc(ls: Seq<Seq<char>>) -> StrategiesState
    decreases ls.len(),
{
    if ls.len() == 0 {
        (Seq::empty(), None)
    } else {
        strategies_step(strategies_acc(ls.drop_last()), ls.last())
    }
}

/// The strategies of a `strategies.ini` text, in file order, each kept only
/// when its `Params` is not empty.
pub open spec fn spec_strategies(text: Seq<char>) -> Seq<StrategyView> {
    let (done, cur) = strategies_acc(lines_of(text));
    keep(done, cur)
}

fn keep_exec(done: &mut Vec<Strategy>, cur: Option<Strategy>)
    ensures
        strategy_views(final(done)@) == keep(strategy_views(old(done)@), match cur {
            Some(s) => Some(s@),
            None => None,
        }),
{
    match cur {
        Some(s) => {
            if s.params.as_str().is_empty() {
                assert(strategy_views(done@) == keep(strategy_views(done@), Some(s@)));
            } else {
                let ghost before = strategy_views(done@);
                done.push(s);
                assert(strategy_views(done@) =~= before.push(s@));
            }
        },
        None => {},
    }
}

/// The strategies of a `strategies.ini` text: sections `[NAME]` with
/// `Description=` and `Params=` lines; sections without `Params` are dropped,
/// and a text with none left is an error.
pub fn parse_strategies(text: &str) -> (r: Result<Vec<Strategy>, CoreError>)
    ensures
        match r {
            Ok(v) => spec_strategies(text@).len() > 0 && strategy_views(v@) == spec_strategies(text@),
            Err(e) => spec_strategies(text@).len() == 0 && (e matches CoreError::Msg(m) && m@
                == "В strategies.ini не найдено ни одной стратегии с полем Params."@),
        },
{
    let tv = chars_of(text);
    let ls = lines_chars(&tv);
    let ghost all = views(ls@);
    let mut done: Vec<Strategy> = Vec::new();
    let mut cur: Option<Strategy> = None;
    let mut i: usize = 0;
    while i < ls.len()
        invariant
            i <= ls.len(),
            all == views(ls@),
            all == lines_of(text@),
            (strategy_views(done@), match cur {
                Some(s) => Some(s@),
                None => None,
            }) == strategies_acc(all.take(i as int)),
        decreases ls.len() - i,
    {
        assert(all.take(i + 1).drop_last() =~= all.take(i as int));
        assert(all.take(i + 1).last() == ls@[i as int]@);
        let t = trim_vec(&ls[i]);
        let n = t.len();
        if n == 0 || t[0] == ';' || t[0] == '#' {
            i = i + 1;
            continue;
        }
        if t[0] == '[' && t[n - 1] == ']' {
            let prev = cur;
            keep_exec(&mut done, prev);
            let name = slice_of(&t, 1, n - 1);
            cur = Some(Strategy { name: string_from(&name), description: String::new(), params: String::new() });
            i = i + 1;
            continue;
        }
        match cur {
            Some(s) => {
                match split_once_chars(&t, '=') {
                    Some((k, v)) => {
                        let key = lower_vec(&trim_vec(&k));
                        proof {
                            reveal_strlit("description");
                            reveal_strlit("params");
                            assert("description"@ =~= lit_description());
                            assert("params"@ =~= lit_params());
                        }
                        if eq_str(&key, "description") {
                            cur = Some(Strategy { description: string_from(&trim_vec(&v)), ..s });
                        } else if eq_str(&key, "params") {
                            cur = Some(Strategy { params: string_from(&trim_vec(&v)), ..s });
                        } else {
                            cur = Some(s);
                        }
                    },
                    None => {
                        cur = Some(s);
                    },
                }
            },
            None => {},
        }
        i = i + 1;
    }
    assert(all.take(ls.len() as int) =~= all);
    keep_exec(&mut done, cur);
    if done.len() == 0 {
        return Err(CoreError::msg("В strategies.ini не найдено ни одной стратегии с полем Params."));
    }
    Ok(done)
}

// ------------------------------------------------------------------------
// targets.txt
// ------------------------------------------------------------------------

pub open spec fn lit_ping() -> Seq<char> {
    seq!['P', 'I', 'N', 'G', ':']
}

pub open spec fn lit_https() -> Seq<char> {
    seq!['h', 't', 't', 'p', 's', ':', '/', '/']
}

pub open spec fn lit_http() -> Seq<char> {
    seq!['h', 't', 't', 'p', ':', '/', '/']
}

/// The host of a URL: the scheme prefixes stripped, up to the first `/`.
pub open spec fn host_of(url: Seq<char>) -> Seq<char> {
    before_char(trim_start_str(trim_start_str(url, lit_https()), lit_http()), '/')
}

/// A target that fetches `url` and pings its host.
pub open spec fn url_target(name: Seq<char>, url: Seq<char>) -> TargetView {
    TargetView { name, url: Some(url), ping_target: host_of(url) }
}

/// A target that only pings `addr`.
pub open spec fn ping_target(name: Seq<char>, addr: Seq<char>) -> TargetView {
    TargetView { name, url: None, ping_target: addr }
}

/// The target of a trimmed `Name = "value"` line: `PING:addr` pings `addr`
/// only, anything else is a URL.
pub open spec fn target_of_line(t: Seq<char>) -> Option<TargetView> {
    match split_once(t, '=') {
        Some((n, v)) => {
            let name = trim(n);
            let val = trim_c(trim(v), '"');
            if starts_with(val, lit_ping()) {
                Some(ping_target(name, trim(val.skip(5))))
            } else {
                Some(url_target(name, val))
            }
        },
        None => None,
    }
}

/// The targets of the lines `ls`, blank and `#` lines skipped.
pub open spec fn targets_of_lines(ls: Seq<Seq<char>>) -> Seq<TargetView>
    decreases ls.len(),
{
    if ls.len() == 0 {
        Seq::empty()
    } else {
        let prev = targets_of_lines(ls.drop_last());
        let t = trim(ls.last());
        if t.len() == 0 || t[0] == '#' {
            prev
        } else {
            match target_of_line(t) {
                Some(x) => prev.push(x),
                None => prev,
            }
        }
    }
}

/// The built-in targets used when `targets.txt` is missing or empty.
pub open spec fn spec_default_targets() -> Seq<TargetView> {
    seq![
        url_target("Discord Main"@, "https://discord.com"@),
        url_target("Discord Gateway"@, "https://gateway.discord.gg"@),
        url_target("Discord CDN"@, "https://cdn.discordapp.com"@),
        url_target("Discord Updates"@, "https://updates.discord.com"@),
        url_target("YouTube Web"@, "https://www.youtube.com"@),
        url_target("YouTube Short"@, "https://youtu.be"@),
        url_target("YouTube Image"@, "https://i.ytimg.com"@),
        url_target("YouTube Video Redirect"@, "https://redirector.googlevideo.com"@),
        url_target("Google Main"@, "https://www.google.com"@),
        url_target("Google Gstatic"@, "https://www.gstatic.com"@),
        url_target("Cloudflare Web"@, "https://www.cloudflare.com"@),
        url_target("Cloudflare CDN"@, "https://cdnjs.cloudflare.com"@),
        url_target("Telegram Main"@, "https://telegram.org"@),
        url_target("Telegram Short"@, "https://t.me"@),
        url_target("Telegram Web"@, "https://web.telegram.org"@),
        ping_target("Cloudflare DNS 1.1.1.1"@, "1.1.1.1"@),
        ping_target("Cloudflare DNS 1.0.0.1"@, "1.0.0.1"@),
        ping_target("Google DNS 8.8.8.8"@, "8.8.8.8"@),
        ping_target("Google DNS 8.8.4.4"@, "8.8.4.4"@),
        ping_target("Quad9 DNS 9.9.9.9"@, "9.9.9.9"@),
    ]
}

/// The targets of a `targets.txt` text (`None` when it could not be read),
/// or the built-in ones when it yields none.
pub open spec fn spec_targets(text: Option<Seq<char>>) -> Seq<TargetView> {
    match text {
        Some(t) => if targets_of_lines(lines_of(t)).len() > 0 { targets_of_lines(lines_of(t)) } else { spec_default_targets() },
        None => spec_default_targets(),
    }
}

fn host_exec(url: &[char]) -> (r: Vec<char>)
    ensures
        r@ == host_of(url@),
{
    let https: [char; 8] = ['h', 't', 't', 'p', 's', ':', '/', '/'];
    let http: [char; 7] = ['h', 't', 't', 'p', ':', '/', '/'];
    assert(https@ =~= lit_https());
    assert(http@ =~= lit_http());
    let a = trim_start_str_vec(url, &https);
    let b = trim_start_str_vec(&a, &http);
    before_char_vec(&b, '/')
}

fn url_exec(name: &str, url: &str) -> (r: Target)
    ensures
        r@ == url_target(name@, url@),
{
    let host = host_exec(&chars_of(url));
    Target { name: to_string(name), url: Some(to_string(url)), ping_target: string_from(&host) }
}

fn ping_exec(name: &str, ip: &str) -> (r: Target)
    ensures
        r@ == ping_target(name@, ip@),
{
    Target { name: to_string(name), url: None, ping_target: to_string(ip) }
}

fn push_target(v: &mut Vec<Target>, t: Target)
    ensures
        target_views(final(v)@) == target_views(old(v)@).push(t@),
{
    let ghost before = target_views(v@);
    v.push(t);
    assert(target_views(v@) =~= before.push(t@));
}

/// The built-in targets: Discord, YouTube, Google, Cloudflare and Telegram
/// sites, and five public DNS servers to ping.
pub fn default_targets() -> (r: Vec<Target>)
    ensures
        target_views(r@) == spec_default_targets(),
{
    let mut v: Vec<Target> = Vec::new();
    push_target(&mut v, url_exec("Discord Main", "https://discord.com"));
    push_target(&mut v, url_exec("Discord Gateway", "https://gateway.discord.gg"));
    push_target(&mut v, url_exec("Discord CDN", "https://cdn.discordapp.com"));
    push_target(&mut v, url_exec("Discord Updates", "https://updates.discord.com"));
    push_target(&mut v, url_exec("YouTube Web", "https://www.youtube.com"));
    push_target(&mut v, url_exec("YouTube Short", "https://youtu.be"));
    push_target(&mut v, url_exec("YouTube Image", "https://i.ytimg.com"));
    push_target(&mut v, url_exec("YouTube Video Redirect", "https://redirector.googlevideo.com"));
    push_target(&mut v, url_exec("Google Main", "https://www.google.com"));
    push_target(&mut v, url_exec("Google Gstatic", "https://www.gstatic.com"));
    push_target(&mut v, url_exec("Cloudflare Web", "https://www.cloudflare.com"));
    push_target(&mut v, url_exec("Cloudflare CDN", "https://cdnjs.cloudflare.com"));
    push_target(&mut v, url_exec("Telegram Main", "https://telegram.org"));
    push_target(&mut v, url_exec("Telegram Short", "https://t.me"));
    push_target(&mut v, url_exec("Telegram Web", "https://web.telegram.org"));
    push_target(&mut v, ping_exec("Cloudflare DNS 1.1.1.1", "1.1.1.1"));
    push_target(&mut v, ping_exec("Cloudflare DNS 1.0.0.1", "1.0.0.1"));
    push_target(&mut v, ping_exec("Google DNS 8.8.8.8", "8.8.8.8"));
    push_target(&mut v, ping_exec("Google DNS 8.8.4.4", "8.8.4.4"));
    push_target(&mut v, ping_exec("Quad9 DNS 9.9.9.9", "9.9.9.9"));
    assert(target_views(v@) =~= spec_default_targets());
    v
}

fn target_line_exec(t: &[char]) -> (r: Option<Target>)
    ensures
        match r {
            Some(x) => target_of_line(t@) == Some(x@),
            None => target_of_line(t@) is None,
        },
{
    match split_once_chars(t, '=') {
        Some((n, v)) => {
            let name = trim_vec(&n);
            let val = trim_c_vec(&trim_vec(&v), '"');
            let ping: [char; 5] = ['P', 'I', 'N', 'G', ':'];
            assert(ping@ =~= lit_ping());
            match strip_prefix_vec(&val, &ping) {
                Some(addr) => {
                    let a = trim_vec(&addr);
                    Some(Target { name: string_from(&name), url: None, ping_target: string_from(&a) })
                },
                None => {
                    let host = host_exec(&val);
                    Some(Target { name: string_from(&name), url: Some(string_from(&val)), ping_target: string_from(&host) })
                },
            }
        },
        None => None,
    }
}

/// The targets of a `targets.txt` text (`None` when the file could not be
/// read): `Name = "https://..."` lines fetch and ping, `Name = "PING:addr"`
/// lines ping only; blank and `#` lines are skipped; when nothing is left the
/// built-in targets are used.
pub fn parse_targets(text: Option<&str>) -> (r: Vec<Target>)
    ensures
        target_views(r@) == spec_targets(match text {
            Some(t) => Some(t@),
            None => None,
        }),
{
    let text = match text {
        Some(t) => t,
        None => {
            return default_targets();
        },
    };
    let tv = chars_of(text);
    let ls = lines_chars(&tv);
    let ghost all = views(ls@);
    let mut out: Vec<Target> = Vec::new();
    let mut i: usize = 0;
    while i < ls.len()
        invariant
            i <= ls.len(),
            all == views(ls@),
            all == lines_of(text@),
            target_views(out@) == targets_of_lines(all.take(i as int)),
        decreases ls.len() - i,
    {
        assert(all.take(i + 1).drop_last() =~= all.take(i as int));
        assert(all.take(i + 1).last() == ls@[i as int]@);
        let t = trim_vec(&ls[i]);
        if t.len() == 0 || t[0] == '#' {
            i = i + 1;
            continue;
        }
        match target_line_exec(&t) {
            Some(x) => push_target(&mut out, x),
            None => {},
        }
        i = i + 1;
    }
    assert(all.take(ls.len() as int) =~= all);
    if out.len() == 0 {
        return default_targets();
    }
    out
}

/// A URL target pings its host: for `http://HOST` or `https://HOST`,
/// optionally followed by a path starting with `/`, the ping target is HOST
/// (which holds no `/` and is not itself a URL).
pub proof fn law_ping_target_is_host(name: Seq<char>, scheme: Seq<char>, host: Seq<char>, rest: Seq<char>)
    requires
        scheme == "http://"@ || scheme == "https://"@,
        forall|i: int| 0 <= i < host.len() ==> host[i] != '/',
        rest.len() == 0 || rest[0] == '/',
        !starts_with(host + rest, "http://"@),
        !starts_with(host + rest, "https://"@),
    ensures
        url_target(name, scheme + host + rest).ping_target == host,
        url_target(name, scheme + host + rest).url == Some(scheme + host + rest),
{
    reveal_strlit("http://");
    reveal_strlit("https://");
    assert("http://"@ =~= lit_http());
    assert("https://"@ =~= lit_https());
    let hr = host + rest;
    let u = scheme + hr;
    assert(u =~= scheme + host + rest);
    assert(u.skip(scheme.len() as int) =~= hr);
    // the scheme is stripped, and nothing more
    assert(trim_start_str(hr, lit_https()) == hr);
    assert(trim_start_str(hr, lit_http()) == hr);
    if scheme == lit_https() {
        assert(u.take(8) =~= scheme);
        assert(trim_start_str(u, lit_https()) == hr);
    } else {
        assert(u[4] == ':');
        assert(!starts_with(u, lit_https())) by {
            if u.len() >= 8 {
                assert(u.take(8)[4] == u[4]);
                assert(lit_https()[4] == 's');
            }
        }
        assert(trim_start_str(u, lit_https()) == u);
        assert(u.take(7) =~= scheme);
        assert(trim_start_str(u, lit_http()) == hr);
    }
    // the host ends at the first `/`
    if rest.len() == 0 {
        assert(hr =~= host);
        lemma_find_char(hr, '/', hr.len() as int);
    } else {
        lemma_find_char(hr, '/', host.len() as int);
        assert(hr.take(host.len() as int) =~= host);
    }
}

proof fn lemma_strategies_have_params(ls: Seq<Seq<char>>)
    ensures
        forall|i: int| 0 <= i < strategies_acc(ls).0.len() ==> (#[trigger] strategies_acc(ls).0[i]).params.len() > 0,
    decreases ls.len(),
{
    if ls.len() > 0 {
        lemma_strategies_have_params(ls.drop_last());
        let (done, cur) = strategies_acc(ls.drop_last());
        let k = keep(done, cur);
        assert forall|i: int| 0 <= i < k.len() implies (#[trigger] k[i]).params.len() > 0 by {
            if i < done.len() {
                assert(k[i] == done[i]);
            }
        }
    }
}

/// Every strategy read from `strategies.ini` has parameters: a section
/// without a non-empty `Params` line is dropped.
pub proof fn law_parsed_strategies_have_params(text: Seq<char>)
    ensures
        forall|i: int| 0 <= i < spec_strategies(text).len() ==> (#[trigger] spec_strategies(text)[i]).params.len() > 0,
{
    lemma_strategies_have_params(lines_of(text));
    let (done, cur) = strategies_acc(lines_of(text));
    let k = keep(done, cur);
    assert forall|i: int| 0 <= i < k.len() implies (#[trigger] k[i]).params.len() > 0 by {
        if i < done.len() {
            assert(k[i] == done[i]);
        }
    }
}

} // verus!
