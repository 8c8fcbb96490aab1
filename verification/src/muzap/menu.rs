//! The interactive screens' decisions, apart from the terminal: how a key
//! moves a menu selection or a scrolled view, and the texts the screens show.
//! The terminal loop reads a key, asks the step function, and draws.
use vstd::prelude::*;

use crate::app::AppConfig;
use crate::config_files::{Strategy, StrategyView};
use crate::fmt::{decimal, number_right, pad_left, pad_right, pad_right_chars};
use crate::muzap::ipset::{spec_mode_ru, spec_mode_str, IpSetMode};
use crate::muzap::settings::{game_filter_mode_ru, spec_game_filter_mode_ru};
use crate::muzap::strategies::shown_description;
use crate::text::{append_chars, chars_of, lines_chars, lines_of, string_from, string_views, to_string, trim_vec};

verus! {

/// The keys the screens react to; any other key is `Other`.
#[derive(Debug, Clone, Copy, PartialEq, Eq, Structural)]
pub enum MenuKey {
    Up,
    Down,
    PageUp,
    PageDown,
    Enter,
    Esc,
    Other,
}

/// What a key does to a menu.
#[derive(Debug, Clone, Copy, PartialEq, Eq, Structural)]
pub enum MenuStep {
    /// Stay in the menu with this item selected.
    Select(usize),
    /// The user chose this item.
    Chosen(usize),
    /// The user left the menu.
    Cancelled,
}

/// The first selection of a menu of `len` items: `default`, at most the last
/// item; `None` for an empty menu, which is left at once.
pub fn arrow_menu_start(len: usize, default: usize) -> (r: Option<usize>)
    ensures
        len == 0 ==> r is None,
        len > 0 ==> r == Some(if default < len { default } else { (len - 1) as usize }),
{
    if len == 0 {
        None
    } else if default < len {
        Some(default)
    } else {
        Some(len - 1)
    }
}

/// One key in a menu of `len` items with `selection` selected: Up and Down
/// move by one within the list, Enter chooses, Esc leaves, other keys do nothing.
pub fn arrow_menu_step(selection: usize, len: usize, key: MenuKey) -> (r: MenuStep)
    requires
        selection < len,
    ensures
        key == MenuKey::Up ==> r == MenuStep::Select(if selection > 0 { (selection - 1) as usize } else { 0 }),
        key == MenuKey::Down ==> r == MenuStep::Select(if selection + 1 < len { (selection + 1) as usize } else { selection }),
        key == MenuKey::Enter ==> r == MenuStep::Chosen(selection),
        key == MenuKey::Esc ==> r == MenuStep::Cancelled,
        key != MenuKey::Up && key != MenuKey::Down && key != MenuKey::Enter && key != MenuKey::Esc
            ==> r == MenuStep::Select(selection),
        r matches MenuStep::Select(s) ==> s < len,
{
    match key {
        MenuKey::Up => MenuStep::Select(selection.saturating_sub(1)),
        MenuKey::Down => {
            if selection + 1 < len {
                MenuStep::Select(selection + 1)
            } else {
                MenuStep::Select(selection)
            }
        },
        MenuKey::Enter => MenuStep::Chosen(selection),
        MenuKey::Esc => MenuStep::Cancelled,
        _ => MenuStep::Select(selection),
    }
}

/// A yes/no question is answered yes only when the first item (`Да`) is chosen.
pub fn confirm_result(choice: Option<usize>) -> (r: bool)
    ensures
        r == (choice == Some(0usize)),
{
    match choice {
        Some(i) => i == 0,
        None => false,
    }
}

/// One key in a scrolled view of `len` lines starting at `offset`: the new
/// offset, or `None` when Enter or Esc leaves the view. Up and Down move by
/// one, PageUp and PageDown by ten, never past the last line.
pub fn scroll_step(offset: usize, len: usize, key: MenuKey) -> (r: Option<usize>)
    requires
        offset <= len,
        len < usize::MAX - 10,
    ensures
        (key == MenuKey::Enter || key == MenuKey::Esc) <==> r is None,
        key == MenuKey::Up ==> r == Some(if offset > 0 { (offset - 1) as usize } else { 0 }),
        key == MenuKey::Down ==> r == Some(if offset + 1 < len { (offset + 1) as usize } else { offset }),
        key == MenuKey::PageUp ==> r == Some(if offset >= 10 { (offset - 10) as usize } else { 0 }),
        key == MenuKey::PageDown ==> r == Some(if offset + 10 < len { (offset + 10) as usize } else if len > 0 { (len - 1) as usize } else { 0 }),
        key == MenuKey::Other ==> r == Some(offset),
{
    match key {
        MenuKey::Up => Some(offset.saturating_sub(1)),
        MenuKey::Down => {
            if offset + 1 < len {
                Some(offset + 1)
            } else {
                Some(offset)
            }
        },
        MenuKey::PageUp => Some(offset.saturating_sub(10)),
        MenuKey::PageDown => {
            let last = len.saturating_sub(1);
            let t = offset + 10;
            if t < last {
                Some(t)
            } else {
                Some(last)
            }
        },
        MenuKey::Enter => None,
        MenuKey::Esc => None,
        MenuKey::Other => Some(offset),
    }
}

/// The number of lines of a title, at least one.
pub fn count_lines(s: &str) -> (r: usize)
    ensures
        r == if lines_of(s@).len() == 0 { 1 } else { lines_of(s@).len() },
{
    let n = lines_chars(&chars_of(s)).len();
    if n == 0 {
        1
    } else {
        n
    }
}

/// The lines of a scrolled view shown from `offset`, for a terminal of
/// `height` rows and a title of `title_lines` lines: the first line after the
/// shown ones (`end`), given room for at least five lines.
pub fn scroll_window(height: u16, title_lines: usize, len: usize, offset: usize) -> (end: usize)
    requires
        offset <= len,
        title_lines < usize::MAX - 2,
        len < usize::MAX - 0x10000,
    ensures
        end == ({
            let header = title_lines + 2;
            let usable = if height as int - header >= 5 { height as int - header } else { 5 };
            if offset + usable < len { offset + usable } else { len as int }
        }),
{
    let header = title_lines + 2;
    let h = height as usize;
    let avail = h.saturating_sub(header);
    let usable = if avail >= 5 {
        avail
    } else {
        5
    };
    if offset + usable < len {
        offset + usable
    } else {
        len
    }
}

pub open spec fn on_off(b: bool) -> Seq<char> {
    if b { "вкл"@ } else { "выкл"@ }
}

/// The main screen's header.
pub open spec fn spec_header(root: Seq<char>, version: Seq<char>, strategy: Option<Seq<char>>, state: Seq<char>, cfg: AppConfig, mode: IpSetMode) -> Seq<char> {
    "MUZAP (Rust)\n"@ + "Версия: "@ + version + "\n"@ + "Каталог: "@ + root + "\n"@ + "Служба: "@ + state + "\n"@
        + "Стратегия: "@ + match strategy { Some(s) => s, None => "не выбрана"@ } + "\n"@
        + "Game Filter: "@ + spec_game_filter_mode_ru(cfg.game_filter_mode) + "\n"@
        + "Телеметрия: "@ + on_off(cfg.telemetry_enabled) + "\n"@
        + "IPSet: "@ + spec_mode_str(mode) + " ("@ + spec_mode_ru(mode) + ")\n"@
        + "\nУправление: ↑↓ — выбрать, Enter — открыть, Esc — назад/выход\n"@
}

/// The main screen's header: version, folder, service state, strategy and settings.
pub fn build_header(root: &str, version: &str, strategy: Option<&str>, state: &str, cfg: &AppConfig, mode: IpSetMode) -> (r: String)
    ensures
        r@ == spec_header(root@, version@, match strategy { Some(s) => Some(s@), None => None }, state@, *cfg, mode),
{
    let mut s = chars_of("MUZAP (Rust)\n");
    append_chars(&mut s, &chars_of("Версия: "));
    append_chars(&mut s, &chars_of(version));
    append_chars(&mut s, &chars_of("\n"));
    append_chars(&mut s, &chars_of("Каталог: "));
    append_chars(&mut s, &chars_of(root));
    append_chars(&mut s, &chars_of("\n"));
    append_chars(&mut s, &chars_of("Служба: "));
    append_chars(&mut s, &chars_of(state));
    append_chars(&mut s, &chars_of("\n"));
    append_chars(&mut s, &chars_of("Стратегия: "));
    match strategy {
        Some(st) => append_chars(&mut s, &chars_of(st)),
        None => append_chars(&mut s, &chars_of("не выбрана")),
    }
    append_chars(&mut s, &chars_of("\n"));
    append_chars(&mut s, &chars_of("Game Filter: "));
    append_chars(&mut s, &chars_of(game_filter_mode_ru(&cfg.game_filter_mode)));
    append_chars(&mut s, &chars_of("\n"));
    append_chars(&mut s, &chars_of("Телеметрия: "));
    append_chars(&mut s, &chars_of(if cfg.telemetry_enabled { "вкл" } else { "выкл" }));
    append_chars(&mut s, &chars_of("\n"));
    append_chars(&mut s, &chars_of("IPSet: "));
    append_chars(&mut s, &chars_of(mode.as_str()));
    append_chars(&mut s, &chars_of(" ("));
    append_chars(&mut s, &chars_of(mode.ru()));
    append_chars(&mut s, &chars_of(")\n"));
    append_chars(&mut s, &chars_of("\nУправление: ↑↓ — выбрать, Enter — открыть, Esc — назад/выход\n"));
    assert(s@ =~= spec_header(root@, version@, match strategy { Some(x) => Some(x@), None => None }, state@, *cfg, mode));
    string_from(&s)
}

/// The game filter values offered, in menu order.
pub open spec fn game_filter_values() -> Seq<Seq<char>> {
    seq!["off"@, "all"@, "tcp"@, "udp"@]
}

/// The game filter menu's items: `описание  (value)`.
pub fn game_filter_items() -> (r: Vec<String>)
    ensures
        string_views(r@) == seq![
            "выкл  (off)"@,
            "TCP+UDP (все порты игр)  (all)"@,
            "только TCP (порты игр)  (tcp)"@,
            "только UDP (порты игр)  (udp)"@,
        ],
{
    let mut v: Vec<String> = Vec::new();
    v.push(to_string("выкл  (off)"));
    v.push(to_string("TCP+UDP (все порты игр)  (all)"));
    v.push(to_string("только TCP (порты игр)  (tcp)"));
    v.push(to_string("только UDP (порты игр)  (udp)"));
    assert(string_views(v@) =~= seq![
        "выкл  (off)"@,
        "TCP+UDP (все порты игр)  (all)"@,
        "только TCP (порты игр)  (tcp)"@,
        "только UDP (порты игр)  (udp)"@,
    ]);
    v
}

/// The game filter value of a menu item.
pub fn game_filter_value(idx: usize) -> (r: &'static str)
    requires
        idx < 4,
    ensures
        r@ == game_filter_values()[idx as int],
{
    if idx == 0 {
        "off"
    } else if idx == 1 {
        "all"
    } else if idx == 2 {
        "tcp"
    } else {
        "udp"
    }
}

/// The IP list menu's first selection: the current mode.
pub fn ipset_default_index(mode: IpSetMode) -> (r: usize)
    ensures
        r == match mode {
            IpSetMode::Stub => 0usize,
            IpSetMode::Any => 1usize,
            IpSetMode::Loaded => 2usize,
        },
{
    match mode {
        IpSetMode::Stub => 0,
        IpSetMode::Any => 1,
        IpSetMode::Loaded => 2,
    }
}

/// The mode an IP list menu item switches to; the fourth item cancels.
pub fn ipset_target(idx: usize) -> (r: Option<IpSetMode>)
    ensures
        idx == 0 ==> r == Some(IpSetMode::Stub),
        idx == 1 ==> r == Some(IpSetMode::Any),
        idx == 2 ==> r == Some(IpSetMode::Loaded),
        idx == 3 ==> r is None,
        idx > 3 ==> r == Some(IpSetMode::Stub),
{
    if idx == 3 {
        None
    } else if idx == 1 {
        Some(IpSetMode::Any)
    } else if idx == 2 {
        Some(IpSetMode::Loaded)
    } else {
        Some(IpSetMode::Stub)
    }
}

/// How a restart offered after a settings change went.
pub enum RestartOutcome {
    /// The service is not installed: nothing was offered.
    NotInstalled,
    /// The user declined.
    Declined,
    /// The restart succeeded.
    Restarted,
    /// The restart failed, for this reason.
    Failed(String),
}

/// The message after a settings change, with what became of the restart.
pub open spec fn spec_with_restart(msg: Seq<char>, o: RestartOutcome) -> Seq<char> {
    match o {
        RestartOutcome::NotInstalled => msg,
        RestartOutcome::Declined => msg + "\nПерезапуск пропущен. Применится после restart."@,
        RestartOutcome::Restarted => msg + "\nСлужба перезапущена."@,
        RestartOutcome::Failed(e) => msg + "\nНе удалось перезапустить: "@ + e@,
    }
}

/// `msg` followed by what became of the restart.
pub fn with_restart(msg: &str, outcome: &RestartOutcome) -> (r: String)
    ensures
        r@ == spec_with_restart(msg@, *outcome),
{
    let mut m = chars_of(msg);
    match outcome {
        RestartOutcome::NotInstalled => {},
        RestartOutcome::Declined => append_chars(&mut m, &chars_of("\nПерезапуск пропущен. Применится после restart.")),
        RestartOutcome::Restarted => append_chars(&mut m, &chars_of("\nСлужба перезапущена.")),
        RestartOutcome::Failed(e) => {
            append_chars(&mut m, &chars_of("\nНе удалось перезапустить: "));
            append_chars(&mut m, &chars_of(e.as_str()));
        },
    }
    assert(m@ =~= spec_with_restart(msg@, *outcome));
    string_from(&m)
}

/// A strategy as the chooser lists it: `name — description`.
pub open spec fn chooser_item(s: StrategyView) -> Seq<char> {
    s.name + " — "@ + shown_description(s.description)
}

/// The strategy chooser's items.
pub fn strategy_menu_items(list: &[Strategy]) -> (r: Vec<String>)
    ensures
        string_views(r@) == Seq::new(list@.len(), |i: int| chooser_item(list@[i]@)),
{
    let mut out: Vec<String> = Vec::new();
    let mut i: usize = 0;
    while i < list.len()
        invariant
            i <= list.len(),
            string_views(out@) == Seq::new(i as nat, |k: int| chooser_item(list@[k]@)),
        decreases list.len() - i,
    {
        let s = &list[i];
        let mut line = chars_of(s.name.as_str());
        append_chars(&mut line, &chars_of(" — "));
        let d = trim_vec(&chars_of(s.description.as_str()));
        if d.len() == 0 {
            append_chars(&mut line, &chars_of("Без описания"));
        } else {
            append_chars(&mut line, &d);
        }
        assert(line@ =~= chooser_item(list@[i as int]@));
        let ghost before = out@;
        out.push(string_from(&line));
        assert(string_views(out@) =~= string_views(before).push(line@));
        assert(string_views(out@) =~= Seq::new((i + 1) as nat, |k: int| chooser_item(list@[k]@)));
        i = i + 1;
    }
    out
}

/// A strategy as the viewer lists it: number right-aligned in three columns,
/// the name left-aligned in 22, then the description.
pub open spec fn viewer_line(idx: nat, s: StrategyView) -> Seq<char> {
    pad_left(decimal(idx), 3) + ". "@ + pad_right(s.name, 22) + " — "@ + shown_description(s.description)
}

/// The strategy viewer's lines, numbered from 1.
pub fn strategies_view_lines(list: &[Strategy]) -> (r: Vec<String>)
    requires
        list.len() < u64::MAX,
    ensures
        string_views(r@) == Seq::new(list@.len(), |i: int| viewer_line((i + 1) as nat, list@[i]@)),
{
    let mut out: Vec<String> = Vec::new();
    let mut i: usize = 0;
    while i < list.len()
        invariant
            i <= list.len() < u64::MAX,
            string_views(out@) == Seq::new(i as nat, |k: int| viewer_line((k + 1) as nat, list@[k]@)),
        decreases list.len() - i,
    {
        let s = &list[i];
        let mut line = number_right((i + 1) as u64, 3);
        append_chars(&mut line, &chars_of(". "));
        append_chars(&mut line, &pad_right_chars(&chars_of(s.name.as_str()), 22));
        append_chars(&mut line, &chars_of(" — "));
        let d = trim_vec(&chars_of(s.description.as_str()));
        if d.len() == 0 {
            append_chars(&mut line, &chars_of("Без описания"));
        } else {
            append_chars(&mut line, &d);
        }
        assert(line@ =~= viewer_line((i + 1) as nat, list@[i as int]@));
        let ghost before = out@;
        out.push(string_from(&line));
        assert(string_views(out@) =~= string_views(before).push(line@));
        assert(string_views(out@) =~= Seq::new((i + 1) as nat, |k: int| viewer_line((k + 1) as nat, list@[k]@)));
        i = i + 1;
    }
    out
}

/// The lines of `muzap settings show`.
pub open spec fn spec_settings_lines(cfg: AppConfig, mode: IpSetMode) -> Seq<Seq<char>> {
    seq![
        "Настройки (muzap.ini / lists):"@,
        "  GameFilterMode   : "@ + spec_game_filter_mode_ru(cfg.game_filter_mode),
        "  TelemetryEnabled : "@ + on_off(cfg.telemetry_enabled),
        "  IPSet mode       : "@ + spec_mode_str(mode) + " ("@ + spec_mode_ru(mode) + ")"@,
    ]
}

/// The current settings as `muzap settings show` prints them.
pub fn settings_show_lines(cfg: &AppConfig, mode: IpSetMode) -> (r: Vec<String>)
    ensures
        string_views(r@) == spec_settings_lines(*cfg, mode),
{
    let mut out: Vec<String> = Vec::new();
    out.push(to_string("Настройки (muzap.ini / lists):"));
    let mut a = chars_of("  GameFilterMode   : ");
    append_chars(&mut a, &chars_of(game_filter_mode_ru(&cfg.game_filter_mode)));
    out.push(string_from(&a));
    let mut b = chars_of("  TelemetryEnabled : ");
    append_chars(&mut b, &chars_of(if cfg.telemetry_enabled { "вкл" } else { "выкл" }));
    out.push(string_from(&b));
    let mut c = chars_of("  IPSet mode       : ");
    append_chars(&mut c, &chars_of(mode.as_str()));
    append_chars(&mut c, &chars_of(" ("));
    append_chars(&mut c, &chars_of(mode.ru()));
    append_chars(&mut c, &chars_of(")"));
    out.push(string_from(&c));
    assert(string_views(out@) =~= spec_settings_lines(*cfg, mode));
    out
}

/// The service screen's items: the first one installs or, once installed, applies the strategy.
pub fn service_menu_items(installed: bool) -> (r: Vec<String>)
    ensures
        string_views(r@) == seq![
            if installed { "Запустить/применить стратегию (перезапуск)"@ } else { "Установить и запустить службу"@ },
            "Сменить стратегию"@,
            "Статус"@,
            "Перезапустить службу"@,
            "Удалить службу"@,
            "Назад"@,
        ],
{
    let mut v: Vec<String> = Vec::new();
    v.push(to_string(if installed { "Запустить/применить стратегию (перезапуск)" } else { "Установить и запустить службу" }));
    v.push(to_string("Сменить стратегию"));
    v.push(to_string("Статус"));
    v.push(to_string("Перезапустить службу"));
    v.push(to_string("Удалить службу"));
    v.push(to_string("Назад"));
    assert(string_views(v@) =~= seq![
        if installed { "Запустить/применить стратегию (перезапуск)"@ } else { "Установить и запустить службу"@ },
        "Сменить стратегию"@,
        "Статус"@,
        "Перезапустить службу"@,
        "Удалить службу"@,
        "Назад"@,
    ]);
    v
}

/// The service screen's title.
pub fn service_menu_title(state: &str, strategy: Option<&str>) -> (r: String)
    ensures
        r@ == "Служба MuZap\n\nСостояние: "@ + state@ + "\nСтратегия: "@ + match strategy { Some(s) => s@, None => "не выбрана"@ }
            + "\n\nВыберите действие:"@,
{
    let mut m = chars_of("Служба MuZap\n\nСостояние: ");
    append_chars(&mut m, &chars_of(state));
    append_chars(&mut m, &chars_of("\nСтратегия: "));
    match strategy {
        Some(s) => append_chars(&mut m, &chars_of(s)),
        None => append_chars(&mut m, &chars_of("не выбрана")),
    }
    append_chars(&mut m, &chars_of("\n\nВыберите действие:"));
    string_from(&m)
}

/// The settings screen's title.
pub fn settings_menu_title(cfg: &AppConfig, mode: IpSetMode) -> (r: String)
    ensures
        r@ == "Настройки\n\nGame Filter: "@ + spec_game_filter_mode_ru(cfg.game_filter_mode) + "\nТелеметрия: "@
            + on_off(cfg.telemetry_enabled) + "\nIPSet: "@ + spec_mode_str(mode) + " ("@ + spec_mode_ru(mode)
            + ")\n\nВыберите действие:"@,
{
    let mut m = chars_of("Настройки\n\nGame Filter: ");
    append_chars(&mut m, &chars_of(game_filter_mode_ru(&cfg.game_filter_mode)));
    append_chars(&mut m, &chars_of("\nТелеметрия: "));
    append_chars(&mut m, &chars_of(if cfg.telemetry_enabled { "вкл" } else { "выкл" }));
    append_chars(&mut m, &chars_of("\nIPSet: "));
    append_chars(&mut m, &chars_of(mode.as_str()));
    append_chars(&mut m, &chars_of(" ("));
    append_chars(&mut m, &chars_of(mode.ru()));
    append_chars(&mut m, &chars_of(")\n\nВыберите действие:"));
    string_from(&m)
}

/// What an item of the service screen leads to.
#[derive(Debug, Clone, Copy, PartialEq, Eq, Structural)]
pub enum ServiceChoice {
    /// Choose a strategy and apply it; with `install`, a missing service is installed.
    PickStrategy { install: bool },
    Status,
    Restart,
    Remove,
    Back,
}

/// The service screen's items in order: apply (installing when needed),
/// change the strategy, status, restart, remove, back.
pub fn service_choice(idx: usize) -> (r: ServiceChoice)
    ensures
        idx == 0 ==> r == (ServiceChoice::PickStrategy { install: true }),
        idx == 1 ==> r == (ServiceChoice::PickStrategy { install: false }),
        idx == 2 ==> r == ServiceChoice::Status,
        idx == 3 ==> r == ServiceChoice::Restart,
        idx == 4 ==> r == ServiceChoice::Remove,
        idx >= 5 ==> r == ServiceChoice::Back,
{
    if idx == 0 {
        ServiceChoice::PickStrategy { install: true }
    } else if idx == 1 {
        ServiceChoice::PickStrategy { install: false }
    } else if idx == 2 {
        ServiceChoice::Status
    } else if idx == 3 {
        ServiceChoice::Restart
    } else if idx == 4 {
        ServiceChoice::Remove
    } else {
        ServiceChoice::Back
    }
}

/// What applying a chosen strategy does to the service.
#[derive(Debug, Clone, Copy, PartialEq, Eq, Structural)]
pub enum ApplyStep {
    Restart,
    Install,
    /// Nothing: the service is missing and installing was not asked for.
    NotInstalled,
}

/// An installed service is restarted; a missing one is installed only when asked.
pub fn apply_step(install: bool, installed: bool) -> (r: ApplyStep)
    ensures
        installed ==> r == ApplyStep::Restart,
        !installed && install ==> r == ApplyStep::Install,
        !installed && !install ==> r == ApplyStep::NotInstalled,
{
    if installed {
        ApplyStep::Restart
    } else if install {
        ApplyStep::Install
    } else {
        ApplyStep::NotInstalled
    }
}

/// The message box after applying strategy `picked`: its tag and text,
/// given the step taken and its error, if any.
pub open spec fn spec_apply_message(install: bool, step: ApplyStep, picked: Seq<char>, err: Option<Seq<char>>) -> (Seq<char>, Seq<char>) {
    match step {
        ApplyStep::Restart => match err {
            None => ("OK"@, if install {
                "Стратегия применена, служба перезапущена: "@ + picked
            } else {
                "Стратегия обновлена и применена (перезапуск): "@ + picked
            }),
            Some(e) => ("ОШИБКА"@, "Не удалось перезапустить: "@ + e),
        },
        ApplyStep::Install => match err {
            None => ("OK"@, "Служба установлена и запущена. Стратегия: "@ + picked),
            Some(e) => ("ОШИБКА"@, "Не удалось установить: "@ + e),
        },
        ApplyStep::NotInstalled => ("ИНФО"@, "Служба не установлена. Выберите: Установить и запустить службу."@),
    }
}

fn joined(a: &str, b: &str) -> (r: String)
    ensures
        r@ == a@ + b@,
{
    let mut m = chars_of(a);
    append_chars(&mut m, &chars_of(b));
    string_from(&m)
}

/// The message box after applying a chosen strategy.
pub fn apply_message(install: bool, step: ApplyStep, picked: &str, err: Option<&str>) -> (r: (String, String))
    ensures
        (r.0@, r.1@) == spec_apply_message(install, step, picked@, match err { Some(e) => Some(e@), None => None }),
{
    match step {
        ApplyStep::Restart => match err {
            None => {
                let text = if install {
                    joined("Стратегия применена, служба перезапущена: ", picked)
                } else {
                    joined("Стратегия обновлена и применена (перезапуск): ", picked)
                };
                (to_string("OK"), text)
            },
            Some(e) => (to_string("ОШИБКА"), joined("Не удалось перезапустить: ", e)),
        },
        ApplyStep::Install => match err {
            None => (to_string("OK"), joined("Служба установлена и запущена. Стратегия: ", picked)),
            Some(e) => (to_string("ОШИБКА"), joined("Не удалось установить: ", e)),
        },
        ApplyStep::NotInstalled => (to_string("ИНФО"), to_string("Служба не установлена. Выберите: Установить и запустить службу.")),
    }
}

/// The message box of the restart and remove items: the service missing
/// (`None`), or the command's error, if any.
pub open spec fn spec_command_message(remove: bool, outcome: Option<Option<Seq<char>>>) -> (Seq<char>, Seq<char>) {
    match outcome {
        None => ("ИНФО"@, if remove { "Служба не установлена (удалять нечего)."@ } else { "Служба не установлена."@ }),
        Some(None) => ("OK"@, if remove { "Удаление службы выполнено (best-effort)."@ } else { "Команда перезапуска отправлена."@ }),
        Some(Some(e)) => ("ОШИБКА"@, if remove { "Не удалось удалить: "@ + e } else { "Не удалось перезапустить: "@ + e }),
    }
}

pub open spec fn command_view(outcome: Option<Option<&str>>) -> Option<Option<Seq<char>>> {
    match outcome {
        None => None,
        Some(None) => Some(None),
        Some(Some(e)) => Some(Some(e@)),
    }
}

/// The message box after the restart (`remove` false) or remove item:
/// `outcome` is `None` when the service is not installed, else the
/// command's error, if any.
pub fn command_message(remove: bool, outcome: Option<Option<&str>>) -> (r: (String, String))
    ensures
        (r.0@, r.1@) == spec_command_message(remove, command_view(outcome)),
{
    match outcome {
        None => (to_string("ИНФО"), to_string(if remove { "Служба не установлена (удалять нечего)." } else { "Служба не установлена." })),
        Some(None) => (to_string("OK"), to_string(if remove { "Удаление службы выполнено (best-effort)." } else { "Команда перезапуска отправлена." })),
        Some(Some(e)) => (to_string("ОШИБКА"), joined(if remove { "Не удалось удалить: " } else { "Не удалось перезапустить: " }, e)),
    }
}

/// The telemetry menu starts on the current state: `Включить` when on, `Выключить` when off.
pub fn telemetry_default_index(enabled: bool) -> (r: usize)
    ensures
        r == if enabled { 0usize } else { 1usize },
{
    if enabled {
        0
    } else {
        1
    }
}

/// The switch a telemetry menu item sets; the third item cancels.
pub fn telemetry_target(idx: usize) -> (r: Option<bool>)
    ensures
        idx == 2 ==> r is None,
        idx != 2 ==> r == Some(idx == 0),
{
    if idx == 2 {
        None
    } else {
        Some(idx == 0)
    }
}

} // verus!
