//! The settings screen's rules: game-filter and telemetry values in `muzap.ini`.
use vstd::prelude::*;

use crate::app::{mode_of, spec_app_config, GameFilterMode};
use crate::ini_laws::{eol_ok, headers_agree, law_read_after_write, law_write_keeps_other_entries, lemma_trim_fixed, lemma_write_keeps_headers_agree, no_nl, same_entry};
use crate::text::{eq_ic, find_char, is_ws, trim_end, trim_start};
use crate::error::AppError;
use crate::ini::{ini_text_after_write, spec_file_eol, spec_write_ini};
use crate::text::{chars_of, eq_str, lines_of, lower, lower_vec, string_from, trim, trim_vec};

verus! {

/// The accepted game-filter values.
pub open spec fn is_game_filter_value(v: Seq<char>) -> bool {
    v == "off"@ || v == "all"@ || v == "tcp"@ || v == "udp"@
}

/// The text `muzap.ini` gets when `section.key` is set to `value`, starting
/// from `existing` (`None` for a missing file).
pub open spec fn ini_after(existing: Option<Seq<char>>, section: Seq<char>, key: Seq<char>, value: Seq<char>) -> Seq<char> {
    match existing {
        Some(t) => spec_write_ini(t, section, key, value, spec_file_eol(t)),
        None => spec_write_ini(Seq::empty(), section, key, value, seq!['\r', '\n']),
    }
}

pub open spec fn opt_view(t: Option<&str>) -> Option<Seq<char>> {
    match t {
        Some(s) => Some(s@),
        None => None,
    }
}

fn write_setting(existing: Option<&str>, section: &str, key: &str, value: &str) -> (r: String)
    requires
        trim(section@).len() != 0,
        trim(key@).len() != 0,
    ensures
        r@ == ini_after(opt_view(existing), section@, key@, value@),
{
    match ini_text_after_write(existing, section, key, value) {
        Ok(s) => s,
        Err(_) => {
            proof {
                assert(false);
            }
            string_from(&Vec::new())
        },
    }
}

proof fn lemma_features_names()
    ensures
        trim("Features"@).len() != 0,
        trim("GameFilterMode"@).len() != 0,
        trim("TelemetryEnabled"@).len() != 0,
{
    reveal_strlit("Features");
    reveal_strlit("GameFilterMode");
    reveal_strlit("TelemetryEnabled");
    reveal_with_fuel(crate::text::trim_start, 2);
    reveal_with_fuel(crate::text::trim_end, 2);
}

/// Sets `Features.GameFilterMode` in the text of `muzap.ini` (`None` for a
/// missing file): the value is trimmed and lower-cased and must be one of
/// `off`, `all`, `tcp`, `udp`.
pub fn set_game_filter_mode(existing: Option<&str>, value: &str) -> (r: Result<String, AppError>)
    ensures
        is_game_filter_value(lower(trim(value@))) <==> r is Ok,
        r matches Ok(s) ==> s@ == ini_after(opt_view(existing), "Features"@, "GameFilterMode"@, lower(trim(value@))),
        r is Err ==> (r matches Err(AppError::Msg(m)) && m@ == "Некорректное значение GameFilterMode. Допустимо: off | all | tcp | udp"@),
{
    let v = lower_vec(&trim_vec(&chars_of(value)));
    let ok = eq_str(&v, "off") || eq_str(&v, "all") || eq_str(&v, "tcp") || eq_str(&v, "udp");
    if !ok {
        return Err(AppError::msg("Некорректное значение GameFilterMode. Допустимо: off | all | tcp | udp"));
    }
    let vs = string_from(&v);
    proof {
        lemma_features_names();
    }
    Ok(write_setting(existing, "Features", "GameFilterMode", vs.as_str()))
}

/// The setting text of a flag.
pub open spec fn bool_text(b: bool) -> Seq<char> {
    if b { "true"@ } else { "false"@ }
}

/// Sets `Features.TelemetryEnabled` to `true` or `false` in the text of `muzap.ini`.
pub fn set_telemetry_enabled(existing: Option<&str>, enabled: bool) -> (r: String)
    ensures
        r@ == ini_after(opt_view(existing), "Features"@, "TelemetryEnabled"@, bool_text(enabled)),
{
    let v = if enabled { "true" } else { "false" };
    proof {
        lemma_features_names();
    }
    write_setting(existing, "Features", "TelemetryEnabled", v)
}

pub open spec fn spec_game_filter_mode_ru(m: GameFilterMode) -> Seq<char> {
    match m {
        GameFilterMode::Off => "выкл"@,
        GameFilterMode::All => "TCP+UDP (все порты игр)"@,
        GameFilterMode::Tcp => "только TCP (порты игр)"@,
        GameFilterMode::Udp => "только UDP (порты игр)"@,
    }
}

/// The mode as the menus show it.
pub fn game_filter_mode_ru(m: &GameFilterMode) -> (r: &'static str)
    ensures
        r@ == spec_game_filter_mode_ru(*m),
{
    match m {
        GameFilterMode::Off => "выкл",
        GameFilterMode::All => "TCP+UDP (все порты игр)",
        GameFilterMode::Tcp => "только TCP (порты игр)",
        GameFilterMode::Udp => "только UDP (порты игр)",
    }
}

pub open spec fn is_true_word(v: Seq<char>) -> bool {
    v == "true"@ || v == "1"@ || v == "on"@ || v == "вкл"@ || v == "yes"@ || v == "y"@
}

pub open spec fn is_false_word(v: Seq<char>) -> bool {
    v == "false"@ || v == "0"@ || v == "off"@ || v == "выкл"@ || v == "no"@ || v == "n"@
}

/// A yes/no answer: after trimming and ASCII lower-casing, `true`, `1`, `on`,
/// `вкл`, `yes`, `y` are `true`; `false`, `0`, `off`, `выкл`, `no`, `n` are
/// `false`; anything else is an error.
pub fn parse_bool_ru(s: &str) -> (r: Result<bool, AppError>)
    ensures
        is_true_word(lower(trim(s@))) ==> r == Ok::<bool, AppError>(true),
        is_false_word(lower(trim(s@))) ==> r == Ok::<bool, AppError>(false),
        !is_true_word(lower(trim(s@))) && !is_false_word(lower(trim(s@))) ==> (r matches Err(AppError::Msg(m)) && m@
            == "Некорректное значение. Допустимо: true/false, 1/0, on/off, вкл/выкл"@),
{
    let v = lower_vec(&trim_vec(&chars_of(s)));
    proof {
        reveal_strlit("true");
        reveal_strlit("1");
        reveal_strlit("on");
        reveal_strlit("вкл");
        reveal_strlit("yes");
        reveal_strlit("y");
        reveal_strlit("false");
        reveal_strlit("0");
        reveal_strlit("off");
        reveal_strlit("выкл");
        reveal_strlit("no");
        reveal_strlit("n");
        if is_false_word(v@) {
            assert(!is_true_word(v@)) by {
                assert(v@.len() >= 1);
                if v@.len() > 1 {
                    assert(v@[1] != 'r' || v@[0] != 't');
                }
            }
        }
    }
    if eq_str(&v, "true") || eq_str(&v, "1") || eq_str(&v, "on") || eq_str(&v, "вкл") || eq_str(&v, "yes")
        || eq_str(&v, "y") {
        Ok(true)
    } else if eq_str(&v, "false") || eq_str(&v, "0") || eq_str(&v, "off") || eq_str(&v, "выкл")
        || eq_str(&v, "no") || eq_str(&v, "n") {
        Ok(false)
    } else {
        Err(AppError::msg("Некорректное значение. Допустимо: true/false, 1/0, on/off, вкл/выкл"))
    }
}

proof fn lemma_plain_word(w: Seq<char>)
    requires
        w.len() > 0,
        forall|i: int| 0 <= i < w.len() ==> 'a' <= #[trigger] w[i] <= 'z' || 'A' <= w[i] <= 'Z',
    ensures
        trim(w) == w,
        no_nl(w),
        find_char(w, '=') is None,
        w[0] != ';' && w[0] != '#' && w[0] != '[',
{
    assert(!is_ws(w[0]));
    assert(!is_ws(w.last()));
    assert(trim_start(w) == w);
    assert(trim_end(w) == w);
    assert forall|i: int| 0 <= i < w.len() implies w[i] != '\n' by {}
    lemma_no_eq(w);
}

proof fn lemma_no_eq(w: Seq<char>)
    requires
        forall|i: int| 0 <= i < w.len() ==> 'a' <= #[trigger] w[i] <= 'z' || 'A' <= w[i] <= 'Z',
    ensures
        find_char(w, '=') is None,
    decreases w.len(),
{
    if w.len() > 0 {
        assert forall|i: int| 0 <= i < w.drop_first().len() implies 'a' <= #[trigger] w.drop_first()[i] <= 'z' || 'A'
            <= w.drop_first()[i] <= 'Z' by {
            assert(w.drop_first()[i] == w[i + 1]);
        }
        lemma_no_eq(w.drop_first());
        assert(w[0] != '=');
    }
}

proof fn lemma_line_ending(t: Option<Seq<char>>)
    ensures
        eol_ok(match t { Some(x) => spec_file_eol(x), None => seq!['\r', '\n'] }),
{
}

/// Setting the game filter mode and reading the settings back gives that
/// mode, for a text whose `[Features]` headers reader and writer see alike.
pub proof fn law_game_filter_mode_read_back(existing: Option<Seq<char>>, value: Seq<char>)
    requires
        is_game_filter_value(lower(trim(value))),
        existing matches Some(t) ==> headers_agree(t, "Features"@),
    ensures
        spec_app_config(Some(ini_after(existing, "Features"@, "GameFilterMode"@, lower(trim(value))))).1
            == mode_of(lower(trim(value))),
{
    reveal_strlit("Features");
    reveal_strlit("GameFilterMode");
    reveal_strlit("off");
    reveal_strlit("all");
    reveal_strlit("tcp");
    reveal_strlit("udp");
    let v = lower(trim(value));
    lemma_plain_word("Features"@);
    lemma_plain_word("GameFilterMode"@);
    lemma_plain_word(v);
    assert(lower(v) =~= v);
    lemma_line_ending(existing);
    let (t, eol) = match existing {
        Some(x) => (x, spec_file_eol(x)),
        None => (Seq::<char>::empty(), seq!['\r', '\n']),
    };
    assert(headers_agree(t, "Features"@)) by {
        if existing is None {
            assert(lines_of(t) =~= Seq::<Seq<char>>::empty());
        }
    }
    law_read_after_write(t, "Features"@, "GameFilterMode"@, v, eol);
}

/// Switching telemetry and reading the settings back gives the switch, for a
/// text whose `[Features]` headers reader and writer see alike.
pub proof fn law_telemetry_read_back(existing: Option<Seq<char>>, enabled: bool)
    requires
        existing matches Some(t) ==> headers_agree(t, "Features"@),
    ensures
        spec_app_config(Some(ini_after(existing, "Features"@, "TelemetryEnabled"@, bool_text(enabled)))).2 == enabled,
{
    reveal_strlit("Features");
    reveal_strlit("TelemetryEnabled");
    reveal_strlit("true");
    reveal_strlit("false");
    let v = bool_text(enabled);
    lemma_plain_word("Features"@);
    lemma_plain_word("TelemetryEnabled"@);
    lemma_plain_word(v);
    lemma_line_ending(existing);
    let (t, eol) = match existing {
        Some(x) => (x, spec_file_eol(x)),
        None => (Seq::<char>::empty(), seq!['\r', '\n']),
    };
    assert(headers_agree(t, "Features"@)) by {
        if existing is None {
            assert(lines_of(t) =~= Seq::<Seq<char>>::empty());
        }
    }
    law_read_after_write(t, "Features"@, "TelemetryEnabled"@, v, eol);
    assert(eq_ic(v, "true"@) == enabled) by {
        assert(lower("true"@) =~= "true"@);
        if !enabled {
            assert(lower("false"@).len() == 5);
        }
    }
}

/// The facts both orders of two settings writes rest on.
proof fn lemma_two_writes_setup(existing: Option<Seq<char>>, value: Seq<char>, enabled: bool)
    requires
        is_game_filter_value(lower(trim(value))),
    ensures
        trim("Features"@) == "Features"@ && no_nl("Features"@) && "Features"@.len() > 0,
        crate::ini_laws::key_name_ok("GameFilterMode"@),
        crate::ini_laws::key_name_ok("TelemetryEnabled"@),
        crate::ini_laws::value_ok(lower(trim(value))),
        crate::ini_laws::value_ok(bool_text(enabled)),
        eol_ok(match existing { Some(x) => spec_file_eol(x), None => seq!['\r', '\n'] }),
        !same_entry("Features"@, "TelemetryEnabled"@, "Features"@, "GameFilterMode"@),
        !same_entry("Features"@, "GameFilterMode"@, "Features"@, "TelemetryEnabled"@),
        headers_agree(Seq::<char>::empty(), "Features"@),
{
    reveal_strlit("Features");
    reveal_strlit("GameFilterMode");
    reveal_strlit("TelemetryEnabled");
    reveal_strlit("true");
    reveal_strlit("false");
    reveal_strlit("off");
    reveal_strlit("all");
    reveal_strlit("tcp");
    reveal_strlit("udp");
    let g = "GameFilterMode"@;
    let te = "TelemetryEnabled"@;
    lemma_plain_word("Features"@);
    lemma_plain_word(g);
    lemma_plain_word(te);
    lemma_plain_word(lower(trim(value)));
    lemma_plain_word(bool_text(enabled));
    lemma_line_ending(existing);
    lemma_trim_fixed(g);
    lemma_trim_fixed(te);
    assert(lower(te)[0] == 't' && lower(g)[0] == 'g');
    assert(lines_of(Seq::<char>::empty()) =~= Seq::<Seq<char>>::empty());
}

proof fn lemma_mode_then_telemetry(existing: Option<Seq<char>>, value: Seq<char>, enabled: bool)
    requires
        is_game_filter_value(lower(trim(value))),
        existing matches Some(t) ==> headers_agree(t, "Features"@),
    ensures
        ({
            let v = lower(trim(value));
            let both = ini_after(Some(ini_after(existing, "Features"@, "GameFilterMode"@, v)), "Features"@, "TelemetryEnabled"@, bool_text(enabled));
            spec_app_config(Some(both)).1 == mode_of(v) && spec_app_config(Some(both)).2 == enabled
        }),
{
    let f = "Features"@;
    let v = lower(trim(value));
    lemma_two_writes_setup(existing, value, enabled);
    let (t, eol) = match existing {
        Some(x) => (x, spec_file_eol(x)),
        None => (Seq::<char>::empty(), seq!['\r', '\n']),
    };
    let t1 = ini_after(existing, f, "GameFilterMode"@, v);
    law_game_filter_mode_read_back(existing, value);
    lemma_write_keeps_headers_agree(t, f, "GameFilterMode"@, v, eol);
    lemma_line_ending(Some(t1));
    law_telemetry_read_back(Some(t1), enabled);
    law_write_keeps_other_entries(t1, f, "TelemetryEnabled"@, bool_text(enabled), spec_file_eol(t1), f, "GameFilterMode"@);
}

proof fn lemma_telemetry_then_mode(existing: Option<Seq<char>>, value: Seq<char>, enabled: bool)
    requires
        is_game_filter_value(lower(trim(value))),
        existing matches Some(t) ==> headers_agree(t, "Features"@),
    ensures
        ({
            let v = lower(trim(value));
            let both = ini_after(Some(ini_after(existing, "Features"@, "TelemetryEnabled"@, bool_text(enabled))), "Features"@, "GameFilterMode"@, v);
            spec_app_config(Some(both)).1 == mode_of(v) && spec_app_config(Some(both)).2 == enabled
        }),
{
    let f = "Features"@;
    let v = lower(trim(value));
    lemma_two_writes_setup(existing, value, enabled);
    let (t, eol) = match existing {
        Some(x) => (x, spec_file_eol(x)),
        None => (Seq::<char>::empty(), seq!['\r', '\n']),
    };
    let t2 = ini_after(existing, f, "TelemetryEnabled"@, bool_text(enabled));
    law_telemetry_read_back(existing, enabled);
    lemma_write_keeps_headers_agree(t, f, "TelemetryEnabled"@, bool_text(enabled), eol);
    lemma_line_ending(Some(t2));
    law_game_filter_mode_read_back(Some(t2), value);
    law_write_keeps_other_entries(t2, f, "GameFilterMode"@, v, spec_file_eol(t2), f, "TelemetryEnabled"@);
}

/// Setting the game filter mode and then telemetry (in either order) and
/// reading the settings back gives both: the second write keeps the first
/// value, for a text whose `[Features]` headers reader and writer see alike.
pub proof fn law_settings_keep_each_other(existing: Option<Seq<char>>, value: Seq<char>, enabled: bool)
    requires
        is_game_filter_value(lower(trim(value))),
        existing matches Some(t) ==> headers_agree(t, "Features"@),
    ensures
        ({
            let v = lower(trim(value));
            let both = ini_after(Some(ini_after(existing, "Features"@, "GameFilterMode"@, v)), "Features"@, "TelemetryEnabled"@, bool_text(enabled));
            spec_app_config(Some(both)).1 == mode_of(v) && spec_app_config(Some(both)).2 == enabled
        }),
        ({
            let v = lower(trim(value));
            let both = ini_after(Some(ini_after(existing, "Features"@, "TelemetryEnabled"@, bool_text(enabled))), "Features"@, "GameFilterMode"@, v);
            spec_app_config(Some(both)).1 == mode_of(v) && spec_app_config(Some(both)).2 == enabled
        }),
{
    lemma_mode_then_telemetry(existing, value, enabled);
    lemma_telemetry_then_mode(existing, value, enabled);
}

} // verus!
