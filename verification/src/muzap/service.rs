//! The service's strategy file, `.service/selected_strategy.txt`.
use vstd::prelude::*;

use crate::error::AppError;
use crate::ini_laws::{lemma_lines_join, lemma_trim_fixed};
use crate::text::{is_ws, join, strip_cr, trim_end, trim_start, append_chars, chars_of, lines_chars, lines_of, string_from, string_views, to_string, trim, trim_vec, upper, upper_vec};

verus! {

/// The file's text for a strategy: the trimmed name and a line ending.
pub fn selected_strategy_text(name: &str) -> (r: String)
    ensures
        r@ == trim(name@).push('\n'),
{
    let mut v = trim_vec(&chars_of(name));
    v.push('\n');
    string_from(&v)
}

/// The first line of a text, empty when there is none.
pub open spec fn first_line(text: Seq<char>) -> Seq<char> {
    if lines_of(text).len() > 0 { lines_of(text)[0] } else { Seq::empty() }
}

/// The strategy the file names: its first line, trimmed; `None` when that is empty.
pub fn selected_strategy_from(text: &str) -> (r: Option<String>)
    ensures
        trim(first_line(text@)).len() == 0 ==> r is None,
        trim(first_line(text@)).len() > 0 ==> (r matches Some(s) && s@ == trim(first_line(text@))),
{
    let ls = lines_chars(&chars_of(text));
    let first = if ls.len() > 0 {
        trim_vec(&ls[0])
    } else {
        Vec::new()
    };
    assert(first@ == trim(first_line(text@))) by {
        if ls.len() == 0 {
            assert(trim(Seq::<char>::empty()) =~= Seq::<char>::empty()) by {
                reveal_with_fuel(crate::text::trim_start, 1);
                reveal_with_fuel(crate::text::trim_end, 1);
            }
        }
    }
    if first.len() == 0 {
        None
    } else {
        Some(string_from(&first))
    }
}


/// The state of the service as the status shows it: `НЕ УСТАНОВЛЕНА` when it
/// is not installed, else its state name (`{:?}` of the state) upper-cased.
pub fn query_service_state_text(state_debug: Option<&str>) -> (r: String)
    ensures
        r@ == match state_debug {
            None => "НЕ УСТАНОВЛЕНА"@,
            Some(d) => upper(d@),
        },
{
    match state_debug {
        None => to_string("НЕ УСТАНОВЛЕНА"),
        Some(d) => string_from(&upper_vec(&chars_of(d))),
    }
}

/// The status report: the selected strategy (or `не выбрана`), then whether
/// the service is installed and, if so, its name and state.
pub open spec fn spec_status_lines(selected: Option<Seq<char>>, state_debug: Option<Seq<char>>) -> Seq<Seq<char>> {
    let first = "Выбранная стратегия: "@ + match selected { Some(s) => s, None => "не выбрана"@ };
    match state_debug {
        None => seq![first, "Служба: НЕ установлена"@],
        Some(d) => seq![first, "Служба: установлена"@, "Имя: MuZap"@, "Состояние: "@ + upper(d)],
    }
}

/// The lines of `muzap service status`, given the selected strategy and the
/// service's state (`None` when it is not installed).
pub fn status_lines(selected: Option<&str>, state_debug: Option<&str>) -> (r: Vec<String>)
    ensures
        string_views(r@) == spec_status_lines(
            match selected { Some(s) => Some(s@), None => None },
            match state_debug { Some(s) => Some(s@), None => None },
        ),
{
    let mut first = chars_of("Выбранная стратегия: ");
    match selected {
        Some(s) => append_chars(&mut first, &chars_of(s)),
        None => append_chars(&mut first, &chars_of("не выбрана")),
    }
    let mut out: Vec<String> = Vec::new();
    out.push(string_from(&first));
    match state_debug {
        None => {
            out.push(to_string("Служба: НЕ установлена"));
        },
        Some(d) => {
            out.push(to_string("Служба: установлена"));
            out.push(to_string("Имя: MuZap"));
            let mut l = chars_of("Состояние: ");
            append_chars(&mut l, &upper_vec(&chars_of(d)));
            out.push(string_from(&l));
        },
    }
    assert(string_views(out@) =~= spec_status_lines(
        match selected { Some(s) => Some(s@), None => None },
        match state_debug { Some(s) => Some(s@), None => None },
    ));
    out
}

/// Before installing: with `force` an existing service is removed first
/// (`Ok(true)`); without it an installed service is an error; otherwise
/// installation proceeds (`Ok(false)`).
pub fn install_precheck(force: bool, installed: bool) -> (r: Result<bool, AppError>)
    ensures
        force ==> r == Ok::<bool, AppError>(true),
        !force && installed ==> (r matches Err(AppError::Msg(m)) && m@ == "Служба MuZap уже установлена. Используйте: MuZap.exe service install --force"@),
        !force && !installed ==> r == Ok::<bool, AppError>(false),
{
    if force {
        Ok(true)
    } else if installed {
        Err(AppError::msg("Служба MuZap уже установлена. Используйте: MuZap.exe service install --force"))
    } else {
        Ok(false)
    }
}

/// The error for a missing `muzap_service.exe`, naming the path looked at.
pub fn missing_service_exe(path: &str) -> (r: AppError)
    ensures
        r matches AppError::Msg(m) && m@ == "Не найден muzap_service.exe: "@ + path@
            + "\nСоберите rust/muzap_service (release) и положите muzap_service.exe в корень MuZap."@,
{
    let mut m = chars_of("Не найден muzap_service.exe: ");
    append_chars(&mut m, &chars_of(path));
    append_chars(&mut m, &chars_of("\nСоберите rust/muzap_service (release) и положите muzap_service.exe в корень MuZap."));
    AppError::Msg(string_from(&m))
}

proof fn lemma_trim_start_head(s: Seq<char>)
    ensures
        trim_start(s).len() > 0 ==> !is_ws(trim_start(s)[0]),
        trim_start(s).len() <= s.len(),
    decreases s.len(),
{
    if s.len() > 0 && is_ws(s[0]) {
        lemma_trim_start_head(s.drop_first());
    }
}

proof fn lemma_trim_end_prefix(t: Seq<char>)
    ensures
        trim_end(t).len() <= t.len(),
        trim_end(t) == t.take(trim_end(t).len() as int),
        trim_end(t).len() > 0 ==> !is_ws(trim_end(t).last()),
    decreases t.len(),
{
    if t.len() > 0 && is_ws(t.last()) {
        lemma_trim_end_prefix(t.drop_last());
        assert(t.drop_last().take(trim_end(t).len() as int) =~= t.take(trim_end(t).len() as int));
    } else {
        assert(t.take(t.len() as int) =~= t);
    }
}

/// A trimmed string starts and ends with non-whitespace.
proof fn lemma_trim_ends(s: Seq<char>)
    ensures
        trim(s).len() > 0 ==> !is_ws(trim(s)[0]) && !is_ws(trim(s).last()),
{
    let a = trim_start(s);
    lemma_trim_start_head(s);
    lemma_trim_end_prefix(a);
    if trim(s).len() > 0 {
        assert(trim(s)[0] == a.take(trim(s).len() as int)[0]);
    }
}

/// The strategy written to the file is the one read back from it: the name,
/// trimmed, when it is not blank and its trimmed form is on one line.
pub proof fn law_selected_strategy_reads_back(name: Seq<char>)
    requires
        forall|i: int| 0 <= i < trim(name).len() ==> trim(name)[i] != '\n',
    ensures
        trim(first_line(trim(name).push('\n'))) == trim(name),
{
    let t = trim(name);
    lemma_trim_ends(name);
    lemma_trim_fixed(t);
    lemma_lines_join(seq![t], seq!['\n']);
    assert(join(seq![t], seq!['\n']) + seq!['\n'] =~= t.push('\n'));
    assert(strip_cr(t) == t) by {
        if t.len() > 0 {
            assert(t.last() != '\r');
        }
    }
    assert(lines_of(t.push('\n')) =~= seq![t]);
}

} // verus!
