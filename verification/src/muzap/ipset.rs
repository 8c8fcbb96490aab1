//! The IP list mode: `none` (placeholder only), `any` (empty list) or
//! `loaded` (a real list), and what switching between them does.
use vstd::prelude::*;

use crate::app::{ipset_kind, ipset_kind_of, nonblank, placeholder};
use crate::ini_laws::{eol_view, lemma_lines_acc_line, lemma_trim_fixed, no_nl};
use crate::text::{lines_acc, lines_of};
use crate::error::AppError;
use crate::muzap::settings::opt_view;
use crate::text::{chars_of, eq_str, lower, lower_vec, trim, trim_vec, to_string};

verus! {

/// The mode of `lists/ipset-all.txt`.
#[derive(Debug, Clone, Copy, PartialEq, Eq, Structural)]
pub enum IpSetMode {
    /// Only the placeholder address (or no file): the filter is off.
    Stub,
    /// An empty file: the filter applies to every address.
    Any,
    /// A real list.
    Loaded,
}

pub open spec fn spec_mode_str(m: IpSetMode) -> Seq<char> {
    match m {
        IpSetMode::Stub => "none"@,
        IpSetMode::Any => "any"@,
        IpSetMode::Loaded => "loaded"@,
    }
}

pub open spec fn spec_mode_ru(m: IpSetMode) -> Seq<char> {
    match m {
        IpSetMode::Stub => "none (заглушка, фильтр выключен)"@,
        IpSetMode::Any => "any (пустой файл, фильтр для всех IP)"@,
        IpSetMode::Loaded => "loaded (ipset-all.txt со списком)"@,
    }
}

impl IpSetMode {
    /// The mode's name: `none`, `any` or `loaded`.
    pub fn as_str(&self) -> (r: &'static str)
        ensures
            r@ == spec_mode_str(*self),
    {
        match self {
            IpSetMode::Stub => "none",
            IpSetMode::Any => "any",
            IpSetMode::Loaded => "loaded",
        }
    }

    /// The mode with its meaning, as the menus show it.
    pub fn ru(&self) -> (r: &'static str)
        ensures
            r@ == spec_mode_ru(*self),
    {
        match self {
            IpSetMode::Stub => "none (заглушка, фильтр выключен)",
            IpSetMode::Any => "any (пустой файл, фильтр для всех IP)",
            IpSetMode::Loaded => "loaded (ipset-all.txt со списком)",
        }
    }
}

pub open spec fn mode_of_kind(k: int) -> IpSetMode {
    if k == 0 { IpSetMode::Stub } else if k == 1 { IpSetMode::Any } else { IpSetMode::Loaded }
}

/// The mode of the list given its text (`None` when it cannot be read): no
/// file or only the placeholder is `none`, no non-blank line is `any`,
/// anything else `loaded`.
pub fn detect_mode(text: Option<&str>) -> (r: IpSetMode)
    ensures
        r == mode_of_kind(ipset_kind(opt_view(text))),
{
    let k = ipset_kind_of(text);
    if k == 0 {
        IpSetMode::Stub
    } else if k == 1 {
        IpSetMode::Any
    } else {
        IpSetMode::Loaded
    }
}

/// The mode a name gives: `none`, `any` or `loaded` after trimming and ASCII lower-casing.
pub open spec fn spec_parse_mode(s: Seq<char>) -> Option<IpSetMode> {
    let v = lower(trim(s));
    if v == "none"@ {
        Some(IpSetMode::Stub)
    } else if v == "any"@ {
        Some(IpSetMode::Any)
    } else if v == "loaded"@ {
        Some(IpSetMode::Loaded)
    } else {
        None
    }
}

/// A mode named by the user: `none`, `any` or `loaded` after trimming and
/// ASCII lower-casing; anything else is an error.
pub fn parse_mode(s: &str) -> (r: Result<IpSetMode, AppError>)
    ensures
        match spec_parse_mode(s@) {
            Some(m) => r == Ok::<IpSetMode, AppError>(m),
            None => r is Err,
        },
        lower(trim(s@)) == "none"@ ==> r == Ok::<IpSetMode, AppError>(IpSetMode::Stub),
        lower(trim(s@)) == "any"@ ==> r == Ok::<IpSetMode, AppError>(IpSetMode::Any),
        lower(trim(s@)) == "loaded"@ ==> r == Ok::<IpSetMode, AppError>(IpSetMode::Loaded),
        lower(trim(s@)) != "none"@ && lower(trim(s@)) != "any"@ && lower(trim(s@)) != "loaded"@ ==> (r matches Err(
            AppError::Msg(m),
        ) && m@ == "Некорректный режим IPSet. Допустимо: none | any | loaded"@),
{
    let v = lower_vec(&trim_vec(&chars_of(s)));
    proof {
        reveal_strlit("none");
        reveal_strlit("any");
        reveal_strlit("loaded");
        assert("none"@.len() == 4 && "any"@.len() == 3 && "loaded"@.len() == 6);
    }
    if eq_str(&v, "none") {
        Ok(IpSetMode::Stub)
    } else if eq_str(&v, "any") {
        Ok(IpSetMode::Any)
    } else if eq_str(&v, "loaded") {
        Ok(IpSetMode::Loaded)
    } else {
        Err(AppError::msg("Некорректный режим IPSet. Допустимо: none | any | loaded"))
    }
}

/// What becomes of `ipset-all.txt` when switching.
#[derive(Debug, Clone, Copy, PartialEq, Eq, Structural)]
pub enum IpSetWrite {
    /// The placeholder address and a line ending.
    Placeholder,
    /// Nothing.
    Empty,
    /// A copy of `ipset-all.txt.backup`.
    FromBackup,
}

/// What a switch to `mode` makes of the list file.
pub open spec fn write_of(mode: IpSetMode) -> IpSetWrite {
    match mode {
        IpSetMode::Stub => IpSetWrite::Placeholder,
        IpSetMode::Any => IpSetWrite::Empty,
        IpSetMode::Loaded => IpSetWrite::FromBackup,
    }
}

/// The text the list file holds after a write, given the backup's text.
pub open spec fn written_text(w: IpSetWrite, backup: Seq<char>) -> Seq<char> {
    match w {
        IpSetWrite::Placeholder => placeholder_text(),
        IpSetWrite::Empty => Seq::empty(),
        IpSetWrite::FromBackup => backup,
    }
}

/// The steps of a switch: whether the current list is first copied to the
/// backup, what the list file becomes, and the message for the user.
pub struct IpSetPlan {
    pub save_backup: bool,
    pub write: IpSetWrite,
    pub message: String,
}

pub open spec fn saved_note(saved: bool) -> Seq<char> {
    if saved { " (Список сохранён в ipset-all.txt.backup)"@ } else { ""@ }
}

/// The content of the list in `none` mode.
pub open spec fn placeholder_text() -> Seq<char> {
    "203.0.113.113/32\n"@
}

/// `placeholder_text()`.
pub fn placeholder_file_text() -> (r: String)
    ensures
        r@ == placeholder_text(),
{
    to_string("203.0.113.113/32\n")
}

/// The switch from `current` to `mode`: a real list about to be replaced
/// (mode changes away from `loaded` and the file exists) is saved to the
/// backup first; `none` writes the placeholder, `any` empties the file, and
/// `loaded` restores the backup, which must exist.
pub fn set_mode(current: IpSetMode, mode: IpSetMode, list_exists: bool, backup_exists: bool) -> (r: Result<IpSetPlan, AppError>)
    ensures
        r is Err <==> mode == IpSetMode::Loaded && !backup_exists,
        r is Err ==> (r matches Err(AppError::Msg(m)) && m@ == "Нет backup-файла ipset-all.txt.backup.\nПодсказка: сначала выполните 'Обновить IPSet List', либо переключитесь из loaded в any/none (тогда backup создастся)."@),
        r matches Ok(p) ==> {
            &&& p.save_backup == (current == IpSetMode::Loaded && mode != IpSetMode::Loaded && list_exists)
            &&& p.write == write_of(mode)
            &&& p.message@ == match mode {
                IpSetMode::Stub => "IPSet режим установлен: none."@ + saved_note(p.save_backup),
                IpSetMode::Any => "IPSet режим установлен: any."@ + saved_note(p.save_backup),
                IpSetMode::Loaded => "IPSet режим установлен: loaded (восстановлено из ipset-all.txt.backup)."@,
            }
        },
{
    let saved = current == IpSetMode::Loaded && mode != IpSetMode::Loaded && list_exists;
    match mode {
        IpSetMode::Stub => {
            let mut m = chars_of("IPSet режим установлен: none.");
            let note = if saved { " (Список сохранён в ipset-all.txt.backup)" } else { "" };
            crate::text::append_chars(&mut m, &chars_of(note));
            Ok(IpSetPlan { save_backup: saved, write: IpSetWrite::Placeholder, message: crate::text::string_from(&m) })
        },
        IpSetMode::Any => {
            let mut m = chars_of("IPSet режим установлен: any.");
            let note = if saved { " (Список сохранён в ipset-all.txt.backup)" } else { "" };
            crate::text::append_chars(&mut m, &chars_of(note));
            Ok(IpSetPlan { save_backup: saved, write: IpSetWrite::Empty, message: crate::text::string_from(&m) })
        },
        IpSetMode::Loaded => {
            if !backup_exists {
                return Err(
                    AppError::msg(
                        "Нет backup-файла ipset-all.txt.backup.\nПодсказка: сначала выполните 'Обновить IPSet List', либо переключитесь из loaded в any/none (тогда backup создастся).",
                    ),
                );
            }
            Ok(
                IpSetPlan {
                    save_backup: saved,
                    write: IpSetWrite::FromBackup,
                    message: to_string("IPSet режим установлен: loaded (восстановлено из ipset-all.txt.backup)."),
                },
            )
        },
    }
}


/// A mode's name parses back to the mode.
pub proof fn law_parse_mode_of_name(m: IpSetMode)
    ensures
        spec_parse_mode(spec_mode_str(m)) == Some(m),
{
    reveal_strlit("none");
    reveal_strlit("any");
    reveal_strlit("loaded");
    let n = spec_mode_str(m);
    assert(!crate::text::is_ws(n[0]) && !crate::text::is_ws(n.last()));
    assert(crate::text::trim_start(n) == n);
    assert(crate::text::trim_end(n) == n);
    assert(lower(n) =~= n);
    assert("none"@.len() == 4 && "any"@.len() == 3 && "loaded"@.len() == 6);
}


/// Switching the list and detecting its mode again gives the mode switched
/// to: the placeholder written for `none` reads as `none`, the empty file
/// written for `any` reads as `any`; for `loaded` the restored list reads as
/// its backup does.
pub proof fn law_switched_list_reads_back(mode: IpSetMode, backup: Seq<char>)
    ensures
        mode != IpSetMode::Loaded ==> mode_of_kind(ipset_kind(Some(written_text(write_of(mode), backup)))) == mode,
        mode == IpSetMode::Loaded ==> written_text(write_of(mode), backup) == backup,
{
    let e = Seq::<char>::empty();
    assert(lines_of(e) =~= Seq::<Seq<char>>::empty());
    assert(nonblank(Seq::<Seq<char>>::empty()) == Seq::<Seq<char>>::empty());
    let x = placeholder();
    let nl = seq!['\n'];
    reveal_strlit("203.0.113.113/32");
    reveal_strlit("203.0.113.113/32\n");
    assert(placeholder_text() =~= e + x + nl);
    assert(no_nl(x)) by {
        assert forall|i: int| 0 <= i < x.len() implies x[i] != '\n' by {}
    }
    assert(lines_acc(e) == (Seq::<Seq<char>>::empty(), e));
    lemma_lines_acc_line(e, x, nl);
    assert(eol_view(x, nl) == x);
    assert(lines_of(placeholder_text()) =~= seq![x]);
    lemma_trim_fixed(x);
    assert(trim(x) == x);
    let one = seq![x];
    assert(one.drop_last() =~= Seq::<Seq<char>>::empty());
    assert(nonblank(one) =~= seq![x]);
}

proof fn lemma_nonblank_keeps(ls: Seq<Seq<char>>, i: int)
    requires
        0 <= i < ls.len(),
        trim(ls[i]).len() > 0,
    ensures
        nonblank(ls).contains(trim(ls[i])),
    decreases ls.len(),
{
    if i < ls.len() - 1 {
        lemma_nonblank_keeps(ls.drop_last(), i);
        assert(ls.drop_last()[i] == ls[i]);
        let prev = nonblank(ls.drop_last());
        let k = choose|k: int| 0 <= k < prev.len() && prev[k] == trim(ls[i]);
        if trim(ls.last()).len() > 0 {
            assert(nonblank(ls)[k] == prev[k]);
        }
    } else {
        assert(nonblank(ls).last() == trim(ls[i]));
    }
}

proof fn lemma_nonblank_two(ls: Seq<Seq<char>>, i: int, j: int)
    requires
        0 <= i < j < ls.len(),
        trim(ls[i]).len() > 0,
        trim(ls[j]).len() > 0,
    ensures
        nonblank(ls).len() >= 2,
    decreases ls.len(),
{
    if j < ls.len() - 1 {
        lemma_nonblank_two(ls.drop_last(), i, j);
        assert(ls.drop_last()[i] == ls[i] && ls.drop_last()[j] == ls[j]);
    } else {
        lemma_nonblank_keeps(ls.drop_last(), i);
        assert(ls.drop_last()[i] == ls[i]);
    }
}

/// The mode a list's text reads as: a missing file is `none`; a file with no
/// non-blank line is `any`; a file with an entry other than the placeholder
/// `203.0.113.113/32`, or with two entries, is `loaded`.
pub proof fn law_list_modes(text: Option<Seq<char>>, i: int, j: int)
    ensures
        text is None ==> mode_of_kind(ipset_kind(text)) == IpSetMode::Stub,
        text matches Some(t) && (forall|k: int| 0 <= k < lines_of(t).len() ==> trim(#[trigger] lines_of(t)[k]).len() == 0)
            ==> mode_of_kind(ipset_kind(text)) == IpSetMode::Any,
        text matches Some(t) && 0 <= i < lines_of(t).len() && trim(lines_of(t)[i]).len() > 0 && trim(lines_of(t)[i]) != "203.0.113.113/32"@
            ==> mode_of_kind(ipset_kind(text)) == IpSetMode::Loaded,
        text matches Some(t) && 0 <= i < j < lines_of(t).len() && trim(lines_of(t)[i]).len() > 0 && trim(lines_of(t)[j]).len() > 0
            ==> mode_of_kind(ipset_kind(text)) == IpSetMode::Loaded,
{
    reveal_strlit("203.0.113.113/32");
    match text {
        Some(t) => {
            let ls = lines_of(t);
            if forall|k: int| 0 <= k < ls.len() ==> trim(#[trigger] ls[k]).len() == 0 {
                lemma_nonblank_empty(ls);
            }
            if 0 <= i < ls.len() && trim(ls[i]).len() > 0 && trim(ls[i]) != "203.0.113.113/32"@ {
                lemma_nonblank_keeps(ls, i);
                assert(placeholder() == "203.0.113.113/32"@);
            }
            if 0 <= i < j < ls.len() && trim(ls[i]).len() > 0 && trim(ls[j]).len() > 0 {
                lemma_nonblank_two(ls, i, j);
            }
        },
        None => {},
    }
}

proof fn lemma_nonblank_empty(ls: Seq<Seq<char>>)
    requires
        forall|k: int| 0 <= k < ls.len() ==> trim(#[trigger] ls[k]).len() == 0,
    ensures
        nonblank(ls).len() == 0,
    decreases ls.len(),
{
    if ls.len() > 0 {
        assert forall|k: int| 0 <= k < ls.drop_last().len() implies trim(#[trigger] ls.drop_last()[k]).len() == 0 by {
            assert(ls.drop_last()[k] == ls[k]);
        }
        lemma_nonblank_empty(ls.drop_last());
        assert(trim(ls[ls.len() - 1]).len() == 0);
    }
}

} // verus!
