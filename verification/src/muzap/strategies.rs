//! Choosing the service's strategy: by name, or by its number in the list.
use vstd::prelude::*;

use crate::config_files::{Strategy, StrategyView};
use crate::error::AppError;
use crate::fmt::{decimal, number_right, pad_right, pad_left, parse_usize, repeat, repeat_chars, spec_parse_usize, pad_right_chars};
use crate::text::{append_chars, chars_of, eq_ic, eq_ic_chars, eq_str, string_from, trim, trim_vec, to_string};
use crate::tester::ui::copy_strategy;

verus! {

/// The position of the first strategy whose name equals `wanted` up to ASCII case.
pub open spec fn first_named(list: Seq<Strategy>, wanted: Seq<char>, i: int) -> bool {
    0 <= i < list.len() && eq_ic(list[i].name@, wanted) && forall|j: int| 0 <= j < i ==> !eq_ic(#[trigger] list[j].name@, wanted)
}

/// The strategy named `name` (trimmed, ASCII case ignored); the first such
/// strategy when several match. An empty name and an unknown name are errors.
pub fn validate_strategy_name(list: &[Strategy], name: &str) -> (r: Result<Strategy, AppError>)
    ensures
        r is Ok <==> trim(name@).len() > 0 && exists|i: int| 0 <= i < list@.len() && eq_ic(#[trigger] list@[i].name@, trim(name@)),
        r matches Ok(s) ==> exists|i: int| first_named(list@, trim(name@), i) && s@ == #[trigger] list@[i]@,
        trim(name@).len() == 0 ==> (r matches Err(AppError::Msg(m)) && m@ == "Имя стратегии пустое."@),
        trim(name@).len() > 0 && r is Err ==> (r matches Err(AppError::Msg(m)) && m@ == "Стратегия не найдена: '"@ + trim(name@)
            + "'. Посмотрите список: muzap strategies list"@),
{
    let wanted = trim_vec(&chars_of(name));
    if wanted.len() == 0 {
        return Err(AppError::msg("Имя стратегии пустое."));
    }
    let mut i: usize = 0;
    while i < list.len()
        invariant
            i <= list.len(),
            wanted@ == trim(name@),
            wanted.len() > 0,
            forall|j: int| 0 <= j < i ==> !eq_ic(#[trigger] list@[j].name@, wanted@),
        decreases list.len() - i,
    {
        let n = chars_of(list[i].name.as_str());
        if eq_ic_chars(&n, &wanted) {
            let s = copy_strategy(&list[i]);
            assert(first_named(list@, wanted@, i as int));
            assert(eq_ic(list@[i as int].name@, trim(name@)));
            return Ok(s);
        }
        i = i + 1;
    }
    let mut m = chars_of("Стратегия не найдена: '");
    append_chars(&mut m, &wanted);
    append_chars(&mut m, &chars_of("'. Посмотрите список: muzap strategies list"));
    Err(AppError::Msg(string_from(&m)))
}

/// An answer to "which strategy?".
#[derive(Debug, Clone, Copy, PartialEq, Eq, Structural)]
pub enum StrategyChoice {
    /// `0`: give up.
    Cancel,
    /// Not a number: ask again.
    NotNumber,
    /// A number outside `1..=count`: ask again.
    OutOfRange,
    /// The strategy at this index (the number less one).
    Pick(usize),
}

/// The answer an input line gives for a list of `count` strategies: `0`
/// cancels, a number `1..=count` picks that strategy, another number is out of
/// range and anything else is not a number (the input is trimmed first).
pub fn parse_choice(input: &str, count: usize) -> (r: StrategyChoice)
    ensures
        trim(input@) == "0"@ ==> r == StrategyChoice::Cancel,
        trim(input@) != "0"@ ==> match spec_parse_usize(trim(input@)) {
            None => r == StrategyChoice::NotNumber,
            Some(n) => if 1 <= n <= count {
                r == StrategyChoice::Pick((n - 1) as usize)
            } else {
                r == StrategyChoice::OutOfRange
            },
        },
{
    let s = trim_vec(&chars_of(input));
    if eq_str(&s, "0") {
        return StrategyChoice::Cancel;
    }
    match parse_usize(&s) {
        None => StrategyChoice::NotNumber,
        Some(n) => {
            if n == 0 || n > count {
                StrategyChoice::OutOfRange
            } else {
                StrategyChoice::Pick(n - 1)
            }
        },
    }
}

/// The description a list line shows: the trimmed description, or `Без описания`.
pub open spec fn shown_description(d: Seq<char>) -> Seq<char> {
    if trim(d).len() == 0 { "Без описания"@ } else { trim(d) }
}

/// One line of the strategy list: number right-aligned in three columns, the
/// name left-aligned in 24, then the description.
pub open spec fn strategy_line(idx: nat, s: StrategyView) -> Seq<char> {
    pad_left(decimal(idx), 3) + ". "@ + pad_right(s.name, 24) + " — "@ + shown_description(s.description)
}

/// The lines of the strategy list: a title, a rule, a line per strategy numbered from 1, a rule.
pub open spec fn spec_strategy_list_lines(list: Seq<Strategy>) -> Seq<Seq<char>> {
    seq!["Стратегии (strategies.ini):"@, repeat('-', 60)] + Seq::new(list.len(), |i: int| strategy_line((i + 1) as nat, list[i]@)) + seq![repeat('-', 60)]
}

/// The strategy list as `muzap strategies list` prints it.
pub fn strategy_list_lines(list: &[Strategy]) -> (r: Vec<String>)
    requires
        list.len() < u64::MAX,
    ensures
        r@.map_values(|l: String| l@) == spec_strategy_list_lines(list@),
{
    let mut out: Vec<String> = Vec::new();
    out.push(to_string("Стратегии (strategies.ini):"));
    let rule = string_from(&repeat_chars('-', 60));
    out.push(rule.clone());
    let mut i: usize = 0;
    while i < list.len()
        invariant
            i <= list.len() < u64::MAX,
            rule@ == repeat('-', 60),
            out@.len() == i + 2,
            out@[0]@ == "Стратегии (strategies.ini):"@,
            out@[1]@ == repeat('-', 60),
            forall|k: int| 0 <= k < i ==> (#[trigger] out@[k + 2])@ == strategy_line((k + 1) as nat, list@[k]@),
        decreases list.len() - i,
    {
        let s = &list[i];
        let mut line = number_right((i + 1) as u64, 3);
        append_chars(&mut line, &chars_of(". "));
        append_chars(&mut line, &pad_right_chars(&chars_of(s.name.as_str()), 24));
        append_chars(&mut line, &chars_of(" — "));
        let d = trim_vec(&chars_of(s.description.as_str()));
        if d.len() == 0 {
            append_chars(&mut line, &chars_of("Без описания"));
        } else {
            append_chars(&mut line, &d);
        }
        assert(line@ =~= strategy_line((i + 1) as nat, list@[i as int]@));
        out.push(string_from(&line));
        i = i + 1;
    }
    out.push(rule);
    assert(out@.map_values(|l: String| l@) =~= spec_strategy_list_lines(list@)) by {
        let a = out@.map_values(|l: String| l@);
        let b = spec_strategy_list_lines(list@);
        assert(a.len() == b.len());
        assert forall|k: int| 0 <= k < a.len() implies a[k] == b[k] by {
            if 2 <= k < list.len() + 2 {
                assert(out@[(k - 2) + 2] == out@[k]);
            }
        }
    }
    out
}

} // verus!
