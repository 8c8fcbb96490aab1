//! The tester's reading of `muzap.ini`; strategies, targets, game ports and
//! the IP list state are read as the core reads them.
use vstd::prelude::*;

pub use crate::app::{get_game_filter_ports, ipset_status_from, AppConfig, GameFilterMode, GamePorts, IpsetStatus};
pub use crate::config_files::{default_targets, parse_strategies, parse_targets, Strategy, Target};

use crate::app::{config_view, mode_of, mode_of_exec};
use crate::ini::{header_inner, is_header, is_skipped};
use crate::text::{
    chars_of, eq_ic, eq_ic_chars, eq_str, lines_chars, lines_of, lower, lower_vec, split_once,
    split_once_chars, string_from, to_string, trim, trim_vec, views,
};

verus! {

/// Reader state: current section (lower-cased), version, game filter mode, telemetry.
pub type TesterConfigState = (Seq<char>, Seq<char>, GameFilterMode, bool);

/// One line of `muzap.ini` as the tester reads it: blank and comment lines
/// are skipped; `[Name]` makes `name` (lower-cased, not trimmed) the
/// section; in `app`, a `version` key sets the version; in `features`,
/// `gamefiltermode` and `telemetryenabled` set the mode and the flag (keys
/// trimmed and compared in lower case; values trimmed). A later line wins.
pub open spec fn tester_step(st: TesterConfigState, raw: Seq<char>) -> TesterConfigState {
    let (section, version, mode, tele) = st;
    let t = trim(raw);
    if is_skipped(t) {
        st
    } else if is_header(t) {
        (lower(header_inner(t)), version, mode, tele)
    } else {
        match split_once(t, '=') {
            None => st,
            Some((k, v)) => {
                let k = lower(trim(k));
                let v = trim(v);
                if section == "app"@ && k == "version"@ {
                    (section, v, mode, tele)
                } else if section == "features"@ && k == "gamefiltermode"@ {
                    (section, version, mode_of(lower(v)), tele)
                } else if section == "features"@ && k == "telemetryenabled"@ {
                    (section, version, mode, eq_ic(v, "true"@))
                } else {
                    st
                }
            },
        }
    }
}

pub open spec fn tester_acc(ls: Seq<Seq<char>>) -> TesterConfigState
    decreases ls.len(),
{
    if ls.len() == 0 {
        (Seq::empty(), "unknown"@, GameFilterMode::Off, false)
    } else {
        tester_step(tester_acc(ls.drop_last()), ls.last())
    }
}

/// The settings the tester reads from a `muzap.ini` text (`None` when it
/// could not be read: version `unknown`, filter off, telemetry off).
pub open spec fn spec_tester_config(text: Option<Seq<char>>) -> (Seq<char>, GameFilterMode, bool) {
    match text {
        None => ("unknown"@, GameFilterMode::Off, false),
        Some(t) => {
            let (_s, v, m, e) = tester_acc(lines_of(t));
            (v, m, e)
        },
    }
}

/// The tester's settings from the text of `muzap.ini`.
pub fn load_app_config(text: Option<&str>) -> (r: AppConfig)
    ensures
        config_view(r) == spec_tester_config(match text { Some(t) => Some(t@), None => None }),
{
    let mut cfg = AppConfig { version: to_string("unknown"), game_filter_mode: GameFilterMode::Off, telemetry_enabled: false };
    let t = match text {
        Some(t) => t,
        None => {
            return cfg;
        },
    };
    let ls = lines_chars(&chars_of(t));
    let ghost all = views(ls@);
    let mut section: Vec<char> = Vec::new();
    let mut i: usize = 0;
    while i < ls.len()
        invariant
            i <= ls.len(),
            all == views(ls@),
            all == lines_of(t@),
            tester_acc(all.take(i as int)) == (section@, cfg.version@, cfg.game_filter_mode, cfg.telemetry_enabled),
        decreases ls.len() - i,
    {
        assert(all.take(i + 1).drop_last() =~= all.take(i as int));
        assert(all.take(i + 1).last() == ls@[i as int]@);
        let line = trim_vec(&ls[i]);
        if line.len() == 0 || line[0] == ';' || line[0] == '#' {
            i = i + 1;
            continue;
        }
        if line.len() >= 2 && line[0] == '[' && line[line.len() - 1] == ']' {
            section = lower_vec(&crate::text::slice_of(&line, 1, line.len() - 1));
            i = i + 1;
            continue;
        }
        match split_once_chars(&line, '=') {
            None => {},
            Some((k, v)) => {
                let k = lower_vec(&trim_vec(&k));
                let v = trim_vec(&v);
                if eq_str(&section, "app") && eq_str(&k, "version") {
                    cfg.version = string_from(&v);
                } else if eq_str(&section, "features") && eq_str(&k, "gamefiltermode") {
                    cfg.game_filter_mode = mode_of_exec(&lower_vec(&v));
                } else if eq_str(&section, "features") && eq_str(&k, "telemetryenabled") {
                    cfg.telemetry_enabled = eq_ic_chars(&v, &chars_of("true"));
                }
            },
        }
        i = i + 1;
    }
    assert(all.take(ls.len() as int) =~= all);
    cfg
}

} // verus!
