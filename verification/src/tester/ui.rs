//! The tester's choices: kind of test, which strategies.
use vstd::prelude::*;

use crate::config_files::{Strategy, StrategyView, strategy_views};
use crate::error::AppError;
use crate::fmt::{decimal, decimal_chars};
use crate::text::{append_chars, chars_of, string_from, string_views};

verus! {

/// The kind of test run.
#[derive(Debug, Clone, Copy, PartialEq, Eq, Structural)]
pub enum TestType {
    Standard,
    Dpi,
}

/// Whether all strategies are tested or a chosen subset.
#[derive(Debug, Clone, Copy, PartialEq, Eq, Structural)]
pub enum TestMode {
    All,
    Select,
}

/// A copy of a strategy.
pub fn copy_strategy(s: &Strategy) -> (r: Strategy)
    ensures
        r@ == s@,
{
    Strategy { name: s.name.clone(), description: s.description.clone(), params: s.params.clone() }
}

/// The strategies at the checked positions of the selection menu, in order;
/// an empty selection is an error.
pub fn ask_config_selection(strategies: &Vec<Strategy>, selected: &Vec<usize>) -> (r: Result<Vec<Strategy>, AppError>)
    requires
        forall|i: int| 0 <= i < selected.len() ==> selected@[i] < strategies.len(),
    ensures
        selected.len() == 0 ==> (r matches Err(AppError::Msg(m)) && m@ == "Не выбрано ни одной стратегии."@),
        selected.len() > 0 ==> (r matches Ok(v) && strategy_views(v@) == selected@.map_values(
            |i: usize| strategies@[i as int]@,
        )),
{
    let mut out: Vec<Strategy> = Vec::new();
    let mut j: usize = 0;
    while j < selected.len()
        invariant
            j <= selected.len(),
            forall|i: int| 0 <= i < selected.len() ==> selected@[i] < strategies.len(),
            strategy_views(out@) == selected@.take(j as int).map_values(|i: usize| strategies@[i as int]@),
        decreases selected.len() - j,
    {
        let s = copy_strategy(&strategies[selected[j]]);
        let ghost before = strategy_views(out@);
        out.push(s);
        assert(strategy_views(out@) =~= selected@.take(j + 1).map_values(|i: usize| strategies@[i as int]@)) by {
            assert(strategy_views(out@) =~= before.push(s@));
        }
        j = j + 1;
    }
    assert(selected@.take(selected.len() as int) =~= selected@);
    if out.len() == 0 {
        return Err(AppError::msg("Не выбрано ни одной стратегии."));
    }
    Ok(out)
}


/// The test types offered, in menu order.
pub fn test_type_at(idx: usize) -> (r: TestType)
    requires
        idx < 2,
    ensures
        r == if idx == 0 { TestType::Standard } else { TestType::Dpi },
{
    if idx == 0 {
        TestType::Standard
    } else {
        TestType::Dpi
    }
}

/// The run modes offered, in menu order.
pub fn test_mode_at(idx: usize) -> (r: TestMode)
    requires
        idx < 2,
    ensures
        r == if idx == 0 { TestMode::All } else { TestMode::Select },
{
    if idx == 0 {
        TestMode::All
    } else {
        TestMode::Select
    }
}

/// A strategy as the selection menu lists it: `name — description`.
pub open spec fn selection_label(s: StrategyView) -> Seq<char> {
    s.name + " — "@ + s.description
}

/// The selection menu's labels.
pub fn selection_labels(strategies: &[Strategy]) -> (r: Vec<String>)
    ensures
        string_views(r@) == Seq::new(strategies@.len(), |i: int| selection_label(strategies@[i]@)),
{
    let mut out: Vec<String> = Vec::new();
    let mut i: usize = 0;
    while i < strategies.len()
        invariant
            i <= strategies.len(),
            string_views(out@) == Seq::new(i as nat, |k: int| selection_label(strategies@[k]@)),
        decreases strategies.len() - i,
    {
        let mut l = chars_of(strategies[i].name.as_str());
        append_chars(&mut l, &chars_of(" — "));
        append_chars(&mut l, &chars_of(strategies[i].description.as_str()));
        let ghost before = out@;
        out.push(string_from(&l));
        assert(string_views(out@) =~= string_views(before).push(l@));
        assert(string_views(out@) =~= Seq::new((i + 1) as nat, |k: int| selection_label(strategies@[k]@)));
        i = i + 1;
    }
    out
}

/// The keys the selection menu reacts to.
#[derive(Debug, Clone, Copy, PartialEq, Eq, Structural)]
pub enum CheckboxKey {
    Up,
    Down,
    /// Space: check or uncheck the current item.
    Toggle,
    /// `A`: check all, or uncheck all when all are checked.
    ToggleAll,
    Enter,
    Esc,
    Other,
}

/// The selection menu: the current item, the first item shown, and the
/// checked items. At most twenty items are shown at a time.
pub struct CheckboxMenu {
    pub cursor: usize,
    pub scroll: usize,
    pub checked: Vec<bool>,
}

/// The number of items shown at once: twenty, or fewer when there are fewer.
pub open spec fn visible_rows(n: nat) -> nat {
    if n < 20 { n } else { 20 }
}

impl CheckboxMenu {
    /// The current item is one of the items (when there are any) and is shown.
    pub open spec fn wf(&self) -> bool {
        let n = self.checked@.len();
        &&& (n == 0 ==> self.cursor == 0 && self.scroll == 0)
        &&& (n > 0 ==> self.cursor < n)
        &&& self.scroll <= self.cursor
        &&& (n > 0 ==> self.cursor < self.scroll + visible_rows(n))
    }

    /// A menu of `n` unchecked items with the first one current.
    pub fn new(n: usize) -> (r: CheckboxMenu)
        ensures
            r.wf(),
            r.cursor == 0,
            r.scroll == 0,
            r.checked@ == Seq::new(n as nat, |_i: int| false),
    {
        let mut checked: Vec<bool> = Vec::new();
        let mut i: usize = 0;
        while i < n
            invariant
                i <= n,
                checked@ == Seq::new(i as nat, |_i: int| false),
            decreases n - i,
        {
            checked.push(false);
            i = i + 1;
            assert(checked@ =~= Seq::new(i as nat, |_i: int| false));
        }
        CheckboxMenu { cursor: 0, scroll: 0, checked }
    }
}

/// What a key does to the selection menu.
pub enum CheckboxOutcome {
    /// Keep going with the updated menu.
    Continue,
    /// Enter: the checked positions, in order.
    Done(Vec<usize>),
    /// Esc: the user gave up.
    Cancelled,
}

/// The positions of the checked items, in order.
pub open spec fn checked_positions(c: Seq<bool>) -> Seq<usize>
    decreases c.len(),
{
    if c.len() == 0 {
        Seq::empty()
    } else {
        let prev = checked_positions(c.drop_last());
        if c.last() { prev.push((c.len() - 1) as usize) } else { prev }
    }
}

proof fn lemma_checked_positions_bound(c: Seq<bool>)
    requires
        c.len() <= usize::MAX,
    ensures
        forall|i: int| 0 <= i < checked_positions(c).len() ==> checked_positions(c)[i] < c.len(),
    decreases c.len(),
{
    if c.len() > 0 {
        lemma_checked_positions_bound(c.drop_last());
        let prev = checked_positions(c.drop_last());
        assert forall|i: int| 0 <= i < checked_positions(c).len() implies checked_positions(c)[i] < c.len() by {
            if i < prev.len() {
                assert(checked_positions(c)[i] == prev[i]);
            }
        }
    }
}

/// The positions of the checked items.
pub fn checked_indices(checked: &Vec<bool>) -> (r: Vec<usize>)
    ensures
        r@ == checked_positions(checked@),
        forall|i: int| 0 <= i < r@.len() ==> r@[i] < checked@.len(),
{
    let mut out: Vec<usize> = Vec::new();
    let mut i: usize = 0;
    while i < checked.len()
        invariant
            i <= checked.len(),
            out@ == checked_positions(checked@.take(i as int)),
        decreases checked.len() - i,
    {
        assert(checked@.take(i + 1).drop_last() =~= checked@.take(i as int));
        if checked[i] {
            out.push(i);
        }
        i = i + 1;
    }
    assert(checked@.take(checked.len() as int) =~= checked@);
    proof {
        lemma_checked_positions_bound(checked@);
    }
    out
}

/// One key in the selection menu. Up and Down move the current item within
/// the list, scrolling just enough to keep it shown; Space checks or
/// unchecks it; `A` checks all items, or unchecks all when all are checked;
/// Enter ends with the checked positions; Esc gives up. The menu stays well formed.
pub fn checkbox_step(menu: &mut CheckboxMenu, key: CheckboxKey) -> (r: CheckboxOutcome)
    requires
        old(menu).wf(),
        key == CheckboxKey::Toggle ==> old(menu).checked@.len() > 0,
    ensures
        final(menu).wf(),
        final(menu).checked@.len() == old(menu).checked@.len(),
        key == CheckboxKey::Up ==> final(menu).cursor == (if old(menu).cursor > 0 { old(menu).cursor - 1 } else { 0 })
            && final(menu).checked@ == old(menu).checked@ && r is Continue,
        key == CheckboxKey::Down ==> final(menu).cursor == (if old(menu).cursor + 1 < old(menu).checked@.len() { old(menu).cursor + 1 } else { old(menu).cursor as int })
            && final(menu).checked@ == old(menu).checked@ && r is Continue,
        key == CheckboxKey::Toggle ==> final(menu).checked@ == old(menu).checked@.update(old(menu).cursor as int, !old(menu).checked@[old(menu).cursor as int])
            && final(menu).cursor == old(menu).cursor && final(menu).scroll == old(menu).scroll && r is Continue,
        key == CheckboxKey::ToggleAll ==> ({
            let all_on = forall|i: int| 0 <= i < old(menu).checked@.len() ==> #[trigger] old(menu).checked@[i];
            final(menu).checked@ == Seq::new(old(menu).checked@.len(), |_i: int| !all_on)
        }) && final(menu).cursor == old(menu).cursor && final(menu).scroll == old(menu).scroll && r is Continue,
        key == CheckboxKey::Enter ==> (r matches CheckboxOutcome::Done(v) && v@ == checked_positions(old(menu).checked@))
            && *final(menu) == *old(menu),
        key == CheckboxKey::Esc ==> r is Cancelled && *final(menu) == *old(menu),
        key == CheckboxKey::Other ==> r is Continue && *final(menu) == *old(menu),
{
    let n = menu.checked.len();
    let visible: usize = if n < 20 { n } else { 20 };
    match key {
        CheckboxKey::Up => {
            menu.cursor = menu.cursor.saturating_sub(1);
            if menu.cursor < menu.scroll {
                menu.scroll = menu.cursor;
            }
            CheckboxOutcome::Continue
        },
        CheckboxKey::Down => {
            if menu.cursor + 1 < n {
                menu.cursor = menu.cursor + 1;
                if menu.cursor - menu.scroll >= visible {
                    menu.scroll = menu.cursor + 1 - visible;
                }
            }
            CheckboxOutcome::Continue
        },
        CheckboxKey::Toggle => {
            let c = menu.cursor;
            let v = menu.checked[c];
            menu.checked.set(c, !v);
            CheckboxOutcome::Continue
        },
        CheckboxKey::ToggleAll => {
            let mut all_on = true;
            let mut i: usize = 0;
            while i < n
                invariant
                    i <= n == menu.checked@.len(),
                    menu.checked@ == old(menu).checked@,
                    menu.cursor == old(menu).cursor,
                    menu.scroll == old(menu).scroll,
                    all_on == forall|j: int| 0 <= j < i ==> #[trigger] menu.checked@[j],
                decreases n - i,
            {
                if !menu.checked[i] {
                    all_on = false;
                }
                i = i + 1;
            }
            let ghost before = menu.checked@;
            let mut j: usize = 0;
            while j < n
                invariant
                    j <= n == menu.checked@.len() == before.len(),
                    before == old(menu).checked@,
                    menu.cursor == old(menu).cursor,
                    menu.scroll == old(menu).scroll,
                    forall|k: int| 0 <= k < j ==> menu.checked@[k] == !all_on,
                decreases n - j,
            {
                menu.checked.set(j, !all_on);
                j = j + 1;
            }
            assert(menu.checked@ =~= Seq::new(before.len(), |_i: int| !all_on));
            CheckboxOutcome::Continue
        },
        CheckboxKey::Enter => CheckboxOutcome::Done(checked_indices(&menu.checked)),
        CheckboxKey::Esc => CheckboxOutcome::Cancelled,
        CheckboxKey::Other => CheckboxOutcome::Continue,
    }
}

/// The menu's scroll note: `Показано a-b из n` when not all items fit.
pub fn scroll_note(scroll: usize, end: usize, total: usize) -> (r: Option<String>)
    requires
        scroll < usize::MAX,
    ensures
        total <= 20 ==> r is None,
        total > 20 ==> (r matches Some(s) && s@ == "  Показано "@ + decimal((scroll + 1) as nat) + seq!['-'] + decimal(end as nat) + " из "@ + decimal(total as nat)),
{
    if total <= 20 {
        return None;
    }
    let mut m = chars_of("  Показано ");
    append_chars(&mut m, &decimal_chars((scroll + 1) as u64));
    m.push('-');
    append_chars(&mut m, &decimal_chars(end as u64));
    append_chars(&mut m, &chars_of(" из "));
    append_chars(&mut m, &decimal_chars(total as u64));
    Some(string_from(&m))
}

} // verus!
