//! `muzap.ini` settings, game filter ports and the state of the IP set list.
use vstd::prelude::*;

use crate::ini::{read_ini_value, spec_read_ini_value};
use crate::text::{
    chars_of, eq_ic, eq_ic_chars, eq_str, lines_chars, lines_of, lower, lower_vec, to_string, trim,
    trim_vec, views,
};

verus! {

/// Which game ports the bypass also covers.
#[derive(Debug, Clone, Copy, PartialEq, Eq, Structural)]
pub enum GameFilterMode {
    Off,
    All,
    Tcp,
    Udp,
}

impl Default for GameFilterMode {
    fn default() -> (r: Self)
        ensures
            r == GameFilterMode::Off,
    {
        GameFilterMode::Off
    }
}

/// The settings of `muzap.ini` the tools use.
#[derive(Debug, Clone)]
pub struct AppConfig {
    pub version: String,
    pub game_filter_mode: GameFilterMode,
    pub telemetry_enabled: bool,
}

impl Default for AppConfig {
    fn default() -> (r: Self)
        ensures
            r.version@ == Seq::<char>::empty(),
            r.game_filter_mode == GameFilterMode::Off,
            !r.telemetry_enabled,
    {
        AppConfig { version: String::new(), game_filter_mode: GameFilterMode::Off, telemetry_enabled: false }
    }
}

/// The port ranges substituted for `%GameFilterTCP%` and `%GameFilterUDP%`.
pub struct GamePorts {
    pub tcp: String,
    pub udp: String,
}

/// The state of `lists/ipset-all.txt`.
#[derive(Debug, Clone, Copy, PartialEq, Eq, Structural)]
pub enum IpsetStatus {
    /// Only the placeholder address: the filter is off.
    Stub,
    /// Empty: every address passes.
    Any,
    /// Real entries.
    Loaded,
}

pub open spec fn spec_ipset_status_str(s: IpsetStatus) -> Seq<char> {
    match s {
        IpsetStatus::Stub => "none"@,
        IpsetStatus::Any => "any"@,
        IpsetStatus::Loaded => "loaded"@,
    }
}

impl IpsetStatus {
    /// The status as `none`, `any` or `loaded`.
    pub fn as_str(&self) -> (r: &'static str)
        ensures
            r@ == spec_ipset_status_str(*self),
    {
        match self {
            IpsetStatus::Stub => "none",
            IpsetStatus::Any => "any",
            IpsetStatus::Loaded => "loaded",
        }
    }
}

/// The address that stands alone in a list to switch the filter off.
pub open spec fn placeholder() -> Seq<char> {
    "203.0.113.113/32"@
}

/// The trimmed non-blank lines of `ls`.
pub open spec fn nonblank(ls: Seq<Seq<char>>) -> Seq<Seq<char>>
    decreases ls.len(),
{
    if ls.len() == 0 {
        Seq::empty()
    } else {
        let prev = nonblank(ls.drop_last());
        let t = trim(ls.last());
        if t.len() > 0 { prev.push(t) } else { prev }
    }
}

/// The kind of an IP list file: 0 no real filter (missing file or only the
/// placeholder), 1 empty, 2 real entries.
pub open spec fn ipset_kind(text: Option<Seq<char>>) -> int {
    match text {
        None => 0,
        Some(t) => {
            let nb = nonblank(lines_of(t));
            if nb.len() == 0 {
                1
            } else if nb.len() == 1 && nb[0] == placeholder() {
                0
            } else {
                2
            }
        },
    }
}

pub open spec fn status_of_kind(k: int) -> IpsetStatus {
    if k == 0 { IpsetStatus::Stub } else if k == 1 { IpsetStatus::Any } else { IpsetStatus::Loaded }
}

/// The kind of an IP list text (`None` when the file could not be read), as
/// `ipset_kind` defines it.
pub fn ipset_kind_of(text: Option<&str>) -> (r: u8)
    ensures
        r as int == ipset_kind(match text {
            Some(t) => Some(t@),
            None => None,
        }),
{
    let text = match text {
        Some(t) => t,
        None => {
            return 0;
        },
    };
    let tv = chars_of(text);
    let ls = lines_chars(&tv);
    let ghost all = views(ls@);
    let mut nb: Vec<Vec<char>> = Vec::new();
    let mut i: usize = 0;
    while i < ls.len()
        invariant
            i <= ls.len(),
            all == views(ls@),
            all == lines_of(text@),
            views(nb@) == nonblank(all.take(i as int)),
        decreases ls.len() - i,
    {
        assert(all.take(i + 1).drop_last() =~= all.take(i as int));
        assert(all.take(i + 1).last() == ls@[i as int]@);
        let t = trim_vec(&ls[i]);
        if t.len() > 0 {
            let ghost before = views(nb@);
            nb.push(t);
            assert(views(nb@) =~= before.push(nb@[nb.len() - 1]@));
        }
        i = i + 1;
    }
    assert(all.take(ls.len() as int) =~= all);
    if nb.len() == 0 {
        1
    } else if nb.len() == 1 && eq_str(&nb[0], "203.0.113.113/32") {
        0
    } else {
        2
    }
}

/// The state of the IP list given its text (`None` when it could not be
/// read): missing or placeholder-only is `None`, empty is `Any`, otherwise `Loaded`.
pub fn ipset_status_from(text: Option<&str>) -> (r: IpsetStatus)
    ensures
        r == status_of_kind(ipset_kind(match text {
            Some(t) => Some(t@),
            None => None,
        })),
{
    let k = ipset_kind_of(text);
    if k == 0 {
        IpsetStatus::Stub
    } else if k == 1 {
        IpsetStatus::Any
    } else {
        IpsetStatus::Loaded
    }
}

/// The mode named by a lower-case value; anything unknown is `Off`.
pub open spec fn mode_of(l: Seq<char>) -> GameFilterMode {
    if l == "all"@ {
        GameFilterMode::All
    } else if l == "tcp"@ {
        GameFilterMode::Tcp
    } else if l == "udp"@ {
        GameFilterMode::Udp
    } else {
        GameFilterMode::Off
    }
}

pub fn mode_of_exec(l: &[char]) -> (r: GameFilterMode)
    ensures
        r == mode_of(l@),
{
    if eq_str(l, "all") {
        GameFilterMode::All
    } else if eq_str(l, "tcp") {
        GameFilterMode::Tcp
    } else if eq_str(l, "udp") {
        GameFilterMode::Udp
    } else {
        GameFilterMode::Off
    }
}

/// The settings of a `muzap.ini` text (`None` when it could not be read):
/// `App.Version` when not blank, else `unknown`; `Features.GameFilterMode`
/// (`all`/`tcp`/`udp`, anything else off); `Features.TelemetryEnabled`
/// (`true` in any case).
pub open spec fn spec_app_config(text: Option<Seq<char>>) -> (Seq<char>, GameFilterMode, bool) {
    match text {
        None => ("unknown"@, GameFilterMode::Off, false),
        Some(t) => {
            let version = match spec_read_ini_value(t, "App"@, "Version"@) {
                Some(v) => if trim(v).len() > 0 { v } else { "unknown"@ },
                None => "unknown"@,
            };
            let mode = match spec_read_ini_value(t, "Features"@, "GameFilterMode"@) {
                Some(v) => mode_of(lower(v)),
                None => GameFilterMode::Off,
            };
            let tele = match spec_read_ini_value(t, "Features"@, "TelemetryEnabled"@) {
                Some(v) => eq_ic(v, "true"@),
                None => false,
            };
            (version, mode, tele)
        },
    }
}

pub open spec fn config_view(c: AppConfig) -> (Seq<char>, GameFilterMode, bool) {
    (c.version@, c.game_filter_mode, c.telemetry_enabled)
}

/// The settings of a `muzap.ini` text, `None` when the file could not be read.
pub fn app_config_from(text: Option<&str>) -> (r: AppConfig)
    ensures
        config_view(r) == spec_app_config(match text {
            Some(t) => Some(t@),
            None => None,
        }),
{
    let mut cfg = AppConfig { version: to_string("unknown"), game_filter_mode: GameFilterMode::Off, telemetry_enabled: false };
    let t = match text {
        Some(t) => t,
        None => {
            return cfg;
        },
    };
    match read_ini_value(t, "App", "Version") {
        Some(v) => {
            if trim_vec(&chars_of(v.as_str())).len() > 0 {
                cfg.version = v;
            }
        },
        None => {},
    }
    match read_ini_value(t, "Features", "GameFilterMode") {
        Some(v) => {
            cfg.game_filter_mode = mode_of_exec(&lower_vec(&chars_of(v.as_str())));
        },
        None => {},
    }
    match read_ini_value(t, "Features", "TelemetryEnabled") {
        Some(v) => {
            cfg.telemetry_enabled = eq_ic_chars(&chars_of(v.as_str()), &chars_of("true"));
        },
        None => {},
    }
    cfg
}

/// The port ranges of a game filter mode.
pub open spec fn spec_ports(m: GameFilterMode) -> (Seq<char>, Seq<char>) {
    match m {
        GameFilterMode::All => ("1024-65535"@, "1024-65535"@),
        GameFilterMode::Tcp => ("1024-65535"@, "12"@),
        GameFilterMode::Udp => ("12"@, "1024-65535"@),
        GameFilterMode::Off => ("12"@, "12"@),
    }
}

/// The TCP and UDP port ranges for the configured game filter: `1024-65535`
/// for each filtered protocol, `12` (a port nothing uses) otherwise.
pub fn get_game_filter_ports(cfg: &AppConfig) -> (r: GamePorts)
    ensures
        (r.tcp@, r.udp@) == spec_ports(cfg.game_filter_mode),
{
    match cfg.game_filter_mode {
        GameFilterMode::All => GamePorts { tcp: to_string("1024-65535"), udp: to_string("1024-65535") },
        GameFilterMode::Tcp => GamePorts { tcp: to_string("1024-65535"), udp: to_string("12") },
        GameFilterMode::Udp => GamePorts { tcp: to_string("12"), udp: to_string("1024-65535") },
        GameFilterMode::Off => GamePorts { tcp: to_string("12"), udp: to_string("12") },
    }
}

/// Each protocol gets the game port range exactly when the mode filters it
/// (TCP for `all` and `tcp`, UDP for `all` and `udp`) and the unused port 12
/// otherwise; the setting's words choose the mode.
pub proof fn law_game_ports_follow_mode(v: Seq<char>)
    ensures
        spec_ports(mode_of(v)).0 == (if v == "all"@ || v == "tcp"@ { "1024-65535"@ } else { "12"@ }),
        spec_ports(mode_of(v)).1 == (if v == "all"@ || v == "udp"@ { "1024-65535"@ } else { "12"@ }),
{
    reveal_strlit("all");
    reveal_strlit("tcp");
    reveal_strlit("udp");
    assert("all"@ != "tcp"@ && "all"@ != "udp"@ && "tcp"@ != "udp"@) by {
        assert("all"@[0] != "tcp"@[0]);
        assert("all"@[0] != "udp"@[0]);
        assert("tcp"@[0] != "udp"@[0]);
    }
}

/// The same per mode: the TCP range is the game range for `All` and `Tcp`,
/// the UDP range for `All` and `Udp`, and each is 12 otherwise.
pub proof fn law_game_ports_of_mode(m: GameFilterMode)
    ensures
        spec_ports(m).0 == (if m == GameFilterMode::All || m == GameFilterMode::Tcp { "1024-65535"@ } else { "12"@ }),
        spec_ports(m).1 == (if m == GameFilterMode::All || m == GameFilterMode::Udp { "1024-65535"@ } else { "12"@ }),
{
}

} // verus!
