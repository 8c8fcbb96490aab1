//! The diagnostics screen: what each check concludes from what the system
//! reports (files present, service states, registry values, processes, the
//! `hosts` file), and the report's lines.
use vstd::prelude::*;

use crate::fmt::{decimal, decimal_chars};

use crate::text::{append_chars, chars_of, contains, contains_chars, eq_chars, join, join_chars, lines_chars, lines_of, lower, lower_vec, string_from, to_string, trim, trim_vec, views};

verus! {

/// How a finding reads: fine, doubtful, wrong, or for information.
#[derive(Debug, Clone, Copy, PartialEq, Eq, Structural)]
pub enum DiagLevel {
    Good,
    Warn,
    Bad,
    Info,
}

/// One finding: its level, what was checked, and what was found.
#[derive(Debug, Clone)]
pub struct DiagItem {
    pub level: DiagLevel,
    pub title: String,
    pub message: String,
}

/// A finding as text.
pub struct DiagView {
    pub level: DiagLevel,
    pub title: Seq<char>,
    pub message: Seq<char>,
}

impl View for DiagItem {
    type V = DiagView;

    open spec fn view(&self) -> DiagView {
        DiagView { level: self.level, title: self.title@, message: self.message@ }
    }
}

pub open spec fn dv(level: DiagLevel, title: Seq<char>, message: Seq<char>) -> DiagView {
    DiagView { level, title, message }
}

pub open spec fn diag_views(v: Seq<DiagItem>) -> Seq<DiagView> {
    v.map_values(|d: DiagItem| d@)
}

fn item(level: DiagLevel, title: &str, msg: &str) -> (r: DiagItem)
    ensures
        r@ == dv(level, title@, msg@),
{
    DiagItem { level, title: to_string(title), message: to_string(msg) }
}

fn item_v(level: DiagLevel, title: &str, msg: Vec<char>) -> (r: DiagItem)
    ensures
        r@ == dv(level, title@, msg@),
{
    DiagItem { level, title: to_string(title), message: string_from(&msg) }
}

impl DiagItem {
    /// A finding that is fine.
    pub fn ok(title: &str, msg: &str) -> (r: DiagItem)
        ensures
            r@ == dv(DiagLevel::Good, title@, msg@),
    {
        item(DiagLevel::Good, title, msg)
    }

    /// A doubtful finding.
    pub fn warn(title: &str, msg: &str) -> (r: DiagItem)
        ensures
            r@ == dv(DiagLevel::Warn, title@, msg@),
    {
        item(DiagLevel::Warn, title, msg)
    }

    /// A wrong finding.
    pub fn bad(title: &str, msg: &str) -> (r: DiagItem)
        ensures
            r@ == dv(DiagLevel::Bad, title@, msg@),
    {
        item(DiagLevel::Bad, title, msg)
    }

    /// A finding for information.
    pub fn info(title: &str, msg: &str) -> (r: DiagItem)
        ensures
            r@ == dv(DiagLevel::Info, title@, msg@),
    {
        item(DiagLevel::Info, title, msg)
    }
}

pub open spec fn tag(l: DiagLevel) -> Seq<char> {
    match l {
        DiagLevel::Good => "[OK]"@,
        DiagLevel::Warn => "[?]"@,
        DiagLevel::Bad => "[X]"@,
        DiagLevel::Info => "[ИНФО]"@,
    }
}

/// A finding's report line: `tag title: message`.
pub open spec fn report_line(d: DiagView) -> Seq<char> {
    tag(d.level) + " "@ + d.title + ": "@ + d.message
}

/// The report: a title, a blank line, and a line per finding.
pub open spec fn spec_render(items: Seq<DiagItem>) -> Seq<Seq<char>> {
    seq!["Диагностика MuZap"@, Seq::empty()] + Seq::new(items.len(), |i: int| report_line(items[i]@))
}

/// The diagnostics report's lines.
pub fn render_lines(items: &[DiagItem]) -> (r: Vec<String>)
    ensures
        r@.map_values(|l: String| l@) == spec_render(items@),
{
    let mut out: Vec<String> = Vec::new();
    out.push(to_string("Диагностика MuZap"));
    out.push(string_from(&Vec::new()));
    let mut i: usize = 0;
    while i < items.len()
        invariant
            i <= items.len(),
            out@.len() == i + 2,
            out@[0]@ == "Диагностика MuZap"@,
            out@[1]@ == Seq::<char>::empty(),
            forall|k: int| 0 <= k < i ==> (#[trigger] out@[k + 2])@ == report_line(items@[k]@),
        decreases items.len() - i,
    {
        let it = &items[i];
        let t = match it.level {
            DiagLevel::Good => "[OK]",
            DiagLevel::Warn => "[?]",
            DiagLevel::Bad => "[X]",
            DiagLevel::Info => "[ИНФО]",
        };
        let mut line = chars_of(t);
        proof {
            reveal_strlit(" ");
        }
        line.push(' ');
        append_chars(&mut line, &chars_of(it.title.as_str()));
        append_chars(&mut line, &chars_of(": "));
        append_chars(&mut line, &chars_of(it.message.as_str()));
        assert(line@ =~= report_line(items@[i as int]@));
        out.push(string_from(&line));
        i = i + 1;
    }
    assert(out@.map_values(|l: String| l@) =~= spec_render(items@)) by {
        let a = out@.map_values(|l: String| l@);
        let b = spec_render(items@);
        assert forall|k: int| 0 <= k < a.len() implies a[k] == b[k] by {
            if 2 <= k {
                assert(out@[(k - 2) + 2] == out@[k]);
            }
        }
    }
    out
}

// ------------------------------------------------------------------------
// Files
// ------------------------------------------------------------------------

/// The file checks, given whether `bin/winws.exe`, `strategies.ini` and
/// `muzap.ini` exist and how their paths are shown.
pub open spec fn spec_basic_files(winws: bool, winws_path: Seq<char>, strategies: bool, strategies_path: Seq<char>, ini: bool, ini_path: Seq<char>) -> Seq<DiagView> {
    seq![
        if winws { dv(DiagLevel::Good, "Файлы"@, "winws.exe найден"@) } else { dv(DiagLevel::Bad, "Файлы"@, "winws.exe не найден: "@ + winws_path) },
        if strategies { dv(DiagLevel::Good, "Файлы"@, "strategies.ini найден"@) } else { dv(DiagLevel::Bad, "Файлы"@, "strategies.ini не найден: "@ + strategies_path) },
        if ini { dv(DiagLevel::Good, "Файлы"@, "muzap.ini найден"@) } else { dv(DiagLevel::Warn, "Файлы"@, "muzap.ini не найден: "@ + ini_path) },
    ]
}

fn with_suffix(prefix: &str, s: &str) -> (r: Vec<char>)
    ensures
        r@ == prefix@ + s@,
{
    let mut v = chars_of(prefix);
    append_chars(&mut v, &chars_of(s));
    v
}

/// The checks of the program's own files: `winws.exe` and `strategies.ini`
/// are required, `muzap.ini` is expected.
pub fn check_basic_files(winws: bool, winws_path: &str, strategies: bool, strategies_path: &str, ini: bool, ini_path: &str) -> (r: Vec<DiagItem>)
    ensures
        diag_views(r@) == spec_basic_files(winws, winws_path@, strategies, strategies_path@, ini, ini_path@),
{
    let mut out: Vec<DiagItem> = Vec::new();
    if winws {
        out.push(DiagItem::ok("Файлы", "winws.exe найден"));
    } else {
        out.push(item_v(DiagLevel::Bad, "Файлы", with_suffix("winws.exe не найден: ", winws_path)));
    }
    if strategies {
        out.push(DiagItem::ok("Файлы", "strategies.ini найден"));
    } else {
        out.push(item_v(DiagLevel::Bad, "Файлы", with_suffix("strategies.ini не найден: ", strategies_path)));
    }
    if ini {
        out.push(DiagItem::ok("Файлы", "muzap.ini найден"));
    } else {
        out.push(item_v(DiagLevel::Warn, "Файлы", with_suffix("muzap.ini не найден: ", ini_path)));
    }
    assert(diag_views(out@) =~= spec_basic_files(winws, winws_path@, strategies, strategies_path@, ini, ini_path@));
    out
}

// ------------------------------------------------------------------------
// Services
// ------------------------------------------------------------------------

/// A service as the service manager lists it.
#[derive(Debug, Clone)]
pub struct ServiceEntry {
    pub name: String,
    pub name_lc: String,
    pub display_lc: String,
    pub state_str: String,
    pub running: bool,
}

/// The state of one service.
#[derive(Debug, Clone)]
pub struct ServiceStateInfo {
    pub state_str: String,
    pub running: bool,
}

pub open spec fn spec_state_str(v: u32) -> Seq<char> {
    if v == 1 {
        "STOPPED"@
    } else if v == 2 {
        "START_PENDING"@
    } else if v == 3 {
        "STOP_PENDING"@
    } else if v == 4 {
        "RUNNING"@
    } else if v == 5 {
        "CONTINUE_PENDING"@
    } else if v == 6 {
        "PAUSE_PENDING"@
    } else if v == 7 {
        "PAUSED"@
    } else {
        "UNKNOWN"@
    }
}

/// The name of a service state code (`SERVICE_STOPPED` = 1 .. `SERVICE_PAUSED` = 7)
/// and whether it means running (4).
pub fn state_to_str(v: u32) -> (r: (String, bool))
    ensures
        r.0@ == spec_state_str(v),
        r.1 == (v == 4),
{
    let s = if v == 1 {
        "STOPPED"
    } else if v == 2 {
        "START_PENDING"
    } else if v == 3 {
        "STOP_PENDING"
    } else if v == 4 {
        "RUNNING"
    } else if v == 5 {
        "CONTINUE_PENDING"
    } else if v == 6 {
        "PAUSE_PENDING"
    } else if v == 7 {
        "PAUSED"
    } else {
        "UNKNOWN"
    };
    (to_string(s), v == 4)
}

/// The entry for a listed service: its name, both names lower-cased, and its state.
pub fn service_entry(name: &str, display: &str, state: u32) -> (r: ServiceEntry)
    ensures
        r.name@ == name@,
        r.name_lc@ == lower(name@),
        r.display_lc@ == lower(display@),
        r.state_str@ == spec_state_str(state),
        r.running == (state == 4),
{
    let (state_str, running) = state_to_str(state);
    ServiceEntry {
        name: to_string(name),
        name_lc: string_from(&lower_vec(&chars_of(name))),
        display_lc: string_from(&lower_vec(&chars_of(display))),
        state_str,
        running,
    }
}

/// The position of the first listed service whose name equals `name` up to ASCII case.
pub open spec fn first_index(all: Seq<ServiceEntry>, name: Seq<char>) -> Option<int>
    decreases all.len(),
{
    if all.len() == 0 {
        None
    } else {
        match first_index(all.drop_last(), name) {
            Some(i) => Some(i),
            None => if lower(all.last().name@) == lower(name) { Some(all.len() - 1) } else { None },
        }
    }
}

/// The state of the first listed service whose name equals `name` up to ASCII case.
pub fn query_service_state(all: &[ServiceEntry], name: &str) -> (r: Option<ServiceStateInfo>)
    ensures
        match first_index(all@, name@) {
            None => r is None,
            Some(i) => r matches Some(st) && st.state_str@ == all@[i].state_str@ && st.running == all@[i].running,
        },
        first_index(all@, name@) matches Some(i) ==> 0 <= i < all@.len(),
{
    let wanted = lower_vec(&chars_of(name));
    let mut i: usize = 0;
    while i < all.len()
        invariant
            i <= all.len(),
            wanted@ == lower(name@),
            first_index(all@.take(i as int), name@) is None,
        decreases all.len() - i,
    {
        let e = &all[i];
        assert(all@.take(i + 1).drop_last() =~= all@.take(i as int));
        if eq_chars(&lower_vec(&chars_of(e.name.as_str())), &wanted) {
            let st = ServiceStateInfo { state_str: e.state_str.clone(), running: e.running };
            proof {
                assert(first_index(all@.take(i + 1), name@) == Some(i as int));
                lemma_first_index_prefix(all@, name@, i + 1);
            }
            return Some(st);
        }
        i = i + 1;
    }
    assert(all@.take(all.len() as int) =~= all@);
    None
}

proof fn lemma_first_index_prefix(all: Seq<ServiceEntry>, name: Seq<char>, k: int)
    requires
        0 <= k <= all.len(),
        first_index(all.take(k), name) is Some,
    ensures
        first_index(all, name) == first_index(all.take(k), name),
        0 <= first_index(all, name)->0 < k,
    decreases all.len() - k,
{
    lemma_first_index_bound(all.take(k), name);
    if k < all.len() {
        assert(all.take(k + 1).drop_last() =~= all.take(k));
        lemma_first_index_prefix(all, name, k + 1);
    } else {
        assert(all.take(k) =~= all);
    }
}

proof fn lemma_first_index_bound(all: Seq<ServiceEntry>, name: Seq<char>)
    ensures
        first_index(all, name) matches Some(i) ==> 0 <= i < all.len(),
    decreases all.len(),
{
    if all.len() > 0 {
        lemma_first_index_bound(all.drop_last(), name);
    }
}

/// The Base Filtering Engine check, given its state (`Err` with the reason
/// when the state could not be queried).
pub fn check_bfe(state: Result<Option<ServiceStateInfo>, String>) -> (r: Vec<DiagItem>)
    ensures
        diag_views(r@) == seq![match state {
            Ok(Some(st)) => if st.running {
                dv(DiagLevel::Good, "BFE (Base Filtering Engine)"@, "служба запущена"@)
            } else {
                dv(DiagLevel::Bad, "BFE (Base Filtering Engine)"@, "служба не запущена (state="@ + st.state_str@ + ")"@)
            },
            Ok(None) => dv(DiagLevel::Warn, "BFE (Base Filtering Engine)"@, "служба не найдена (неожиданно)"@),
            Err(e) => dv(DiagLevel::Warn, "BFE (Base Filtering Engine)"@, "не удалось проверить: "@ + e@),
        }],
{
    proof {
        reveal_strlit(")");
    }
    let mut out: Vec<DiagItem> = Vec::new();
    let it = match state {
        Ok(Some(st)) => {
            if st.running {
                DiagItem::ok("BFE (Base Filtering Engine)", "служба запущена")
            } else {
                let mut m = chars_of("служба не запущена (state=");
                append_chars(&mut m, &chars_of(st.state_str.as_str()));
                m.push(')');
                assert(m@ =~= "служба не запущена (state="@ + st.state_str@ + ")"@);
                item_v(DiagLevel::Bad, "BFE (Base Filtering Engine)", m)
            }
        },
        Ok(None) => DiagItem::warn("BFE (Base Filtering Engine)", "служба не найдена (неожиданно)"),
        Err(e) => item_v(DiagLevel::Warn, "BFE (Base Filtering Engine)", with_suffix("не удалось проверить: ", e.as_str())),
    };
    out.push(it);
    assert(diag_views(out@) =~= seq![it@]);
    out
}

// ------------------------------------------------------------------------
// Registry values and processes
// ------------------------------------------------------------------------

/// The proxy check, given `ProxyEnable` and `ProxyServer` of the user's
/// Internet settings (`None` where a value is missing).
pub open spec fn spec_proxy(enable: Option<u32>, server: Option<Seq<char>>) -> DiagView {
    let e = match enable { Some(v) => v, None => 0 };
    let sv = match server { Some(v) => v, None => Seq::empty() };
    if e == 1 {
        if trim(sv).len() == 0 {
            dv(DiagLevel::Warn, "Proxy"@, "включён, но ProxyServer пустой (проверьте настройки)"@)
        } else {
            dv(DiagLevel::Warn, "Proxy"@, "включён: "@ + sv)
        }
    } else {
        dv(DiagLevel::Good, "Proxy"@, "выключен"@)
    }
}

/// The proxy check: a switched-on system proxy is doubtful.
pub fn check_proxy(proxy_enable: Option<u32>, proxy_server: Option<String>) -> (r: Vec<DiagItem>)
    ensures
        diag_views(r@) == seq![spec_proxy(proxy_enable, match proxy_server { Some(s) => Some(s@), None => None })],
{
    let e: u32 = match proxy_enable {
        Some(v) => v,
        None => 0,
    };
    let sv: Vec<char> = match &proxy_server {
        Some(v) => chars_of(v.as_str()),
        None => Vec::new(),
    };
    let it = if e == 1 {
        if trim_vec(&sv).len() == 0 {
            DiagItem::warn("Proxy", "включён, но ProxyServer пустой (проверьте настройки)")
        } else {
            let mut m = chars_of("включён: ");
            append_chars(&mut m, &sv);
            item_v(DiagLevel::Warn, "Proxy", m)
        }
    } else {
        DiagItem::ok("Proxy", "выключен")
    };
    let mut out: Vec<DiagItem> = Vec::new();
    out.push(it);
    assert(diag_views(out@) =~= seq![it@]);
    out
}

/// The TCP timestamps check, given `Tcp1323Opts` (`None` when missing): bit 1 set means on.
pub open spec fn spec_tcp_timestamps(v: Option<u32>) -> DiagView {
    match v {
        Some(raw) => if (raw & 2u32) != 0 {
            dv(DiagLevel::Good, "TCP timestamps"@, "включены (Tcp1323Opts="@ + decimal(raw as nat) + ")"@)
        } else {
            dv(DiagLevel::Warn, "TCP timestamps"@, "выключены (Tcp1323Opts="@ + decimal(raw as nat) + "). Иногда это влияет на обход DPI."@)
        },
        None => dv(DiagLevel::Info, "TCP timestamps"@, "ключ Tcp1323Opts не найден (Windows использует значения по умолчанию)"@),
    }
}

/// The TCP timestamps check.
pub fn check_tcp_timestamps_registry(v: Option<u32>) -> (r: Vec<DiagItem>)
    ensures
        diag_views(r@) == seq![spec_tcp_timestamps(v)],
{
    let it = match v {
        Some(raw) => {
            let on = (raw & 2u32) != 0;
            let mut m = chars_of(if on { "включены (Tcp1323Opts=" } else { "выключены (Tcp1323Opts=" });
            append_chars(&mut m, &decimal_chars(raw as u64));
            let tail = if on { ")" } else { "). Иногда это влияет на обход DPI." };
            append_chars(&mut m, &chars_of(tail));
            if on {
                item_v(DiagLevel::Good, "TCP timestamps", m)
            } else {
                item_v(DiagLevel::Warn, "TCP timestamps", m)
            }
        },
        None => DiagItem::info("TCP timestamps", "ключ Tcp1323Opts не найден (Windows использует значения по умолчанию)"),
    };
    let mut out: Vec<DiagItem> = Vec::new();
    out.push(it);
    assert(diag_views(out@) =~= seq![it@]);
    out
}

/// The number of interfaces whose `DohFlags` is present and above zero.
pub open spec fn doh_count(values: Seq<Option<u32>>) -> nat
    decreases values.len(),
{
    if values.len() == 0 {
        0
    } else {
        doh_count(values.drop_last()) + match values.last() {
            Some(v) => if v > 0 { 1nat } else { 0nat },
            None => 0nat,
        }
    }
}

/// The DNS-over-HTTPS check, given the `DohFlags` value of each interface.
pub fn check_doh_flags(values: &[Option<u32>]) -> (r: Vec<DiagItem>)
    ensures
        diag_views(r@) == seq![if doh_count(values@) > 0 {
            dv(DiagLevel::Info, "DoH (Windows)"@, "обнаружены интерфейсы с DohFlags>0: "@ + decimal(doh_count(values@)))
        } else {
            dv(DiagLevel::Good, "DoH (Windows)"@, "DohFlags не обнаружены (или DoH выключен на уровне Windows)"@)
        }],
{
    let mut any: u64 = 0;
    let mut i: usize = 0;
    while i < values.len()
        invariant
            i <= values.len(),
            any == doh_count(values@.take(i as int)),
            any <= i,
        decreases values.len() - i,
    {
        assert(values@.take(i + 1).drop_last() =~= values@.take(i as int));
        match values[i] {
            Some(v) => {
                if v > 0 {
                    any = any + 1;
                }
            },
            None => {},
        }
        i = i + 1;
    }
    assert(values@.take(values.len() as int) =~= values@);
    let it = if any > 0 {
        let mut m = chars_of("обнаружены интерфейсы с DohFlags>0: ");
        append_chars(&mut m, &decimal_chars(any));
        item_v(DiagLevel::Info, "DoH (Windows)", m)
    } else {
        DiagItem::ok("DoH (Windows)", "DohFlags не обнаружены (или DoH выключен на уровне Windows)")
    };
    let mut out: Vec<DiagItem> = Vec::new();
    out.push(it);
    assert(diag_views(out@) =~= seq![it@]);
    out
}

/// The number of processes named `adguardsvc.exe` up to ASCII case.
pub open spec fn adguard_count(names: Seq<String>) -> nat
    decreases names.len(),
{
    if names.len() == 0 {
        0
    } else {
        adguard_count(names.drop_last()) + if lower(names.last()@) == "adguardsvc.exe"@ { 1nat } else { 0nat }
    }
}

/// `n` copies of `s`.
pub open spec fn copies(s: Seq<char>, n: nat) -> Seq<Seq<char>> {
    Seq::new(n, |_i: int| s)
}

/// The process check, given the names of the running processes: AdGuard's
/// service process is a potential conflict (named once per process found).
pub fn check_process_conflicts(names: &[String]) -> (r: Vec<DiagItem>)
    ensures
        diag_views(r@) == seq![if adguard_count(names@) == 0 {
            dv(DiagLevel::Good, "Процессы"@, "конфликтующие процессы не найдены"@)
        } else {
            dv(DiagLevel::Warn, "Процессы"@, "обнаружены потенциальные конфликты: "@ + join(copies("AdguardSvc.exe"@, adguard_count(names@)), ", "@))
        }],
{
    let mut found: Vec<Vec<char>> = Vec::new();
    let mut i: usize = 0;
    while i < names.len()
        invariant
            i <= names.len(),
            views(found@) == copies("AdguardSvc.exe"@, adguard_count(names@.take(i as int))),
        decreases names.len() - i,
    {
        assert(names@.take(i + 1).drop_last() =~= names@.take(i as int));
        let lc = lower_vec(&chars_of(names[i].as_str()));
        let ghost before = views(found@);
        if crate::text::eq_str(&lc, "adguardsvc.exe") {
            found.push(chars_of("AdguardSvc.exe"));
            assert(views(found@) =~= before.push("AdguardSvc.exe"@));
        }
        assert(views(found@) =~= copies("AdguardSvc.exe"@, adguard_count(names@.take(i + 1))));
        i = i + 1;
    }
    assert(names@.take(names.len() as int) =~= names@);
    let it = if found.len() == 0 {
        DiagItem::ok("Процессы", "конфликтующие процессы не найдены")
    } else {
        let mut m = chars_of("обнаружены потенциальные конфликты: ");
        append_chars(&mut m, &join_chars(&found, &chars_of(", ")));
        item_v(DiagLevel::Warn, "Процессы", m)
    };
    let mut out: Vec<DiagItem> = Vec::new();
    out.push(it);
    assert(diag_views(out@) =~= seq![it@]);
    out
}

// ------------------------------------------------------------------------
// Conflicting services
// ------------------------------------------------------------------------

/// Services known to conflict with the filter driver.
pub open spec fn known_conflicts() -> Seq<Seq<char>> {
    seq!["GoodbyeDPI"@, "discordfix_zapret"@, "winws1"@, "winws2"@, "WinDivert"@, "WinDivert14"@]
}

/// The finding for a known conflicting service that is installed.
pub open spec fn known_item(s: Seq<char>, e: ServiceEntry) -> DiagView {
    if e.running {
        dv(DiagLevel::Bad, "Конфликтующая служба"@, s + " запущена (RUNNING)"@)
    } else {
        dv(DiagLevel::Warn, "Конфликтующая служба"@, s + " установлена (state="@ + e.state_str@ + ")"@)
    }
}

/// The findings for the first `k` known conflicting services, in order: one per installed service.
pub open spec fn known_items(all: Seq<ServiceEntry>, k: nat) -> Seq<DiagView>
    decreases k,
{
    if k == 0 {
        Seq::empty()
    } else {
        let prev = known_items(all, (k - 1) as nat);
        let s = known_conflicts()[k - 1];
        match first_index(all, s) {
            Some(i) => prev.push(known_item(s, all[i])),
            None => prev,
        }
    }
}

/// Whether a service belongs to group `g`: 0 Killer, 1 SmartByte, 2 Check
/// Point, 3 Intel Connectivity, 4 VPN.
pub open spec fn in_group(e: ServiceEntry, g: int) -> bool {
    let n = e.name_lc@;
    let d = e.display_lc@;
    if g == 0 {
        contains(n, "killer"@) || contains(d, "killer"@)
    } else if g == 1 {
        contains(n, "smartbyte"@) || contains(d, "smartbyte"@)
    } else if g == 2 {
        contains(n, "tracsrvwrapper"@) || contains(d, "tracsrvwrapper"@) || contains(n, "epwd"@) || contains(d, "epwd"@)
    } else if g == 3 {
        let t = n + " "@ + d;
        contains(t, "intel"@) && contains(t, "connect"@) && contains(t, "network"@)
    } else {
        contains(n, "vpn"@) || contains(d, "vpn"@)
    }
}

/// `name (STATE)` for the services of group `g`, in order.
pub open spec fn group_names(all: Seq<ServiceEntry>, g: int) -> Seq<Seq<char>>
    decreases all.len(),
{
    if all.len() == 0 {
        Seq::empty()
    } else {
        let prev = group_names(all.drop_last(), g);
        let e = all.last();
        if in_group(e, g) { prev.push(e.name@ + " ("@ + e.state_str@ + ")"@) } else { prev }
    }
}

pub open spec fn group_title(g: int) -> Seq<char> {
    if g == 0 {
        "Killer"@
    } else if g == 1 {
        "SmartByte"@
    } else if g == 2 {
        "Check Point"@
    } else if g == 3 {
        "Intel Connectivity"@
    } else {
        "VPN"@
    }
}

pub open spec fn group_none(g: int) -> Seq<char> {
    if g == 0 {
        "службы Killer не обнаружены"@
    } else if g == 1 {
        "службы SmartByte не обнаружены"@
    } else if g == 2 {
        "службы Check Point не обнаружены"@
    } else if g == 3 {
        "службы Intel Connectivity не обнаружены"@
    } else {
        "VPN-службы не обнаружены"@
    }
}

/// The finding for group `g`: the services found (a warning, information for
/// VPN), or that there are none.
pub open spec fn group_item(all: Seq<ServiceEntry>, g: int) -> DiagView {
    let names = group_names(all, g);
    if names.len() > 0 {
        dv(if g == 4 { DiagLevel::Info } else { DiagLevel::Warn }, group_title(g), "обнаружены службы: "@ + join(names, ", "@))
    } else {
        dv(DiagLevel::Good, group_title(g), group_none(g))
    }
}

/// The findings of the service check.
pub open spec fn spec_service_conflicts(all: Seq<ServiceEntry>) -> Seq<DiagView> {
    known_items(all, 6) + seq![group_item(all, 0), group_item(all, 1), group_item(all, 2), group_item(all, 3), group_item(all, 4)]
}

fn in_group_exec(e: &ServiceEntry, g: u8) -> (r: bool)
    requires
        g <= 4,
    ensures
        r == in_group(*e, g as int),
{
    let n = chars_of(e.name_lc.as_str());
    let d = chars_of(e.display_lc.as_str());
    if g == 0 {
        let p = chars_of("killer");
        contains_chars(&n, &p) || contains_chars(&d, &p)
    } else if g == 1 {
        let p = chars_of("smartbyte");
        contains_chars(&n, &p) || contains_chars(&d, &p)
    } else if g == 2 {
        let p = chars_of("tracsrvwrapper");
        let q = chars_of("epwd");
        contains_chars(&n, &p) || contains_chars(&d, &p) || contains_chars(&n, &q) || contains_chars(&d, &q)
    } else if g == 3 {
        let mut t = n;
        proof {
            reveal_strlit(" ");
        }
        t.push(' ');
        append_chars(&mut t, &d);
        assert(t@ =~= e.name_lc@ + " "@ + e.display_lc@);
        contains_chars(&t, &chars_of("intel")) && contains_chars(&t, &chars_of("connect")) && contains_chars(
            &t,
            &chars_of("network"),
        )
    } else {
        let p = chars_of("vpn");
        contains_chars(&n, &p) || contains_chars(&d, &p)
    }
}

fn group_item_exec(all: &[ServiceEntry], g: u8) -> (r: DiagItem)
    requires
        g <= 4,
    ensures
        r@ == group_item(all@, g as int),
{
    proof {
        reveal_strlit(")");
    }
    let mut names: Vec<Vec<char>> = Vec::new();
    let mut i: usize = 0;
    while i < all.len()
        invariant
            i <= all.len(),
            g <= 4,
            views(names@) == group_names(all@.take(i as int), g as int),
        decreases all.len() - i,
    {
        assert(all@.take(i + 1).drop_last() =~= all@.take(i as int));
        assert(all@.take(i + 1).last() == all@[i as int]);
        let e = &all[i];
        if in_group_exec(e, g) {
            let mut m = chars_of(e.name.as_str());
            append_chars(&mut m, &chars_of(" ("));
            append_chars(&mut m, &chars_of(e.state_str.as_str()));
            proof {
                reveal_strlit(")");
            }
            m.push(')');
            let ghost before = views(names@);
            assert(m@ =~= e.name@ + " ("@ + e.state_str@ + ")"@);
            names.push(m);
            assert(views(names@) =~= before.push(e.name@ + " ("@ + e.state_str@ + ")"@));
        }
        i = i + 1;
    }
    assert(all@.take(all.len() as int) =~= all@);
    let (title, none) = if g == 0 {
        ("Killer", "службы Killer не обнаружены")
    } else if g == 1 {
        ("SmartByte", "службы SmartByte не обнаружены")
    } else if g == 2 {
        ("Check Point", "службы Check Point не обнаружены")
    } else if g == 3 {
        ("Intel Connectivity", "службы Intel Connectivity не обнаружены")
    } else {
        ("VPN", "VPN-службы не обнаружены")
    };
    if names.len() > 0 {
        let mut m = chars_of("обнаружены службы: ");
        append_chars(&mut m, &join_chars(&names, &chars_of(", ")));
        item_v(if g == 4 { DiagLevel::Info } else { DiagLevel::Warn }, title, m)
    } else {
        item(DiagLevel::Good, title, none)
    }
}

/// The service check, given the listed services: each known conflicting
/// service that is installed (wrong when running), then the groups of
/// services known to interfere (Killer, SmartByte, Check Point, Intel
/// Connectivity, VPN).
pub fn check_service_conflicts(all: &[ServiceEntry]) -> (r: Vec<DiagItem>)
    ensures
        diag_views(r@) == spec_service_conflicts(all@),
{
    proof {
        reveal_strlit(")");
    }
    let known: Vec<&str> = vec!["GoodbyeDPI", "discordfix_zapret", "winws1", "winws2", "WinDivert", "WinDivert14"];
    assert(known@.map_values(|s: &str| s@) =~= known_conflicts());
    let mut out: Vec<DiagItem> = Vec::new();
    let mut k: usize = 0;
    while k < known.len()
        invariant
            k <= known.len() == 6,
            known@.map_values(|s: &str| s@) == known_conflicts(),
            diag_views(out@) == known_items(all@, k as nat),
        decreases known.len() - k,
    {
        let s = known[k];
        assert(s@ == known_conflicts()[k as int]);
        let ghost before = diag_views(out@);
        match query_service_state(all, s) {
            Some(st) => {
                let ghost i = first_index(all@, s@)->0;
                let mut m = chars_of(s);
                if st.running {
                    append_chars(&mut m, &chars_of(" запущена (RUNNING)"));
                    out.push(item_v(DiagLevel::Bad, "Конфликтующая служба", m));
                } else {
                    append_chars(&mut m, &chars_of(" установлена (state="));
                    append_chars(&mut m, &chars_of(st.state_str.as_str()));
                    proof {
                        reveal_strlit(")");
                    }
                    m.push(')');
                    assert(m@ =~= s@ + " установлена (state="@ + st.state_str@ + ")"@);
                    out.push(item_v(DiagLevel::Warn, "Конфликтующая служба", m));
                }
                assert(diag_views(out@) =~= before.push(known_item(s@, all@[i])));
            },
            None => {},
        }
        k = k + 1;
    }
    let mut g: u8 = 0;
    while g < 5
        invariant
            g <= 5,
            diag_views(out@) == known_items(all@, 6) + Seq::new(g as nat, |j: int| group_item(all@, j)),
        decreases 5 - g,
    {
        let it = group_item_exec(all, g);
        let ghost before = diag_views(out@);
        out.push(it);
        assert(diag_views(out@) =~= before.push(it@));
        assert(Seq::new((g + 1) as nat, |j: int| group_item(all@, j)) =~= Seq::new(g as nat, |j: int| group_item(all@, j)).push(group_item(all@, g as int)));
        assert(diag_views(out@) =~= known_items(all@, 6) + Seq::new((g + 1) as nat, |j: int| group_item(all@, j)));
        g = g + 1;
    }
    assert(Seq::new(5, |j: int| group_item(all@, j)) =~= seq![group_item(all@, 0), group_item(all@, 1), group_item(all@, 2), group_item(all@, 3), group_item(all@, 4)]);
    out
}

// ------------------------------------------------------------------------
// The hosts file
// ------------------------------------------------------------------------

/// Some domain of `domains` occurs in `text`, ASCII case ignored.
pub open spec fn spec_contains_any(text: Seq<char>, domains: Seq<Seq<char>>) -> bool {
    exists|i: int| 0 <= i < domains.len() && contains(lower(text), lower(#[trigger] domains[i]))
}

pub open spec fn str_views(v: Seq<&str>) -> Seq<Seq<char>> {
    v.map_values(|s: &str| s@)
}

/// Whether any of `domains` occurs in `text`, ASCII case ignored.
pub fn contains_any_domain(text: &str, domains: &[&str]) -> (r: bool)
    ensures
        r == spec_contains_any(text@, str_views(domains@)),
{
    let t = lower_vec(&chars_of(text));
    let mut i: usize = 0;
    while i < domains.len()
        invariant
            i <= domains.len(),
            t@ == lower(text@),
            forall|j: int| 0 <= j < i ==> !contains(lower(text@), lower(#[trigger] str_views(domains@)[j])),
        decreases domains.len() - i,
    {
        if contains_chars(&t, &lower_vec(&chars_of(domains[i]))) {
            assert(contains(lower(text@), lower(str_views(domains@)[i as int])));
            return true;
        }
        i = i + 1;
    }
    false
}

/// Some domain occurs in `line` (already lower-cased).
pub open spec fn line_has_domain(line: Seq<char>, domains: Seq<Seq<char>>) -> bool {
    exists|i: int| 0 <= i < domains.len() && contains(line, lower(#[trigger] domains[i]))
}

/// The scan of `hosts` lines: whether inside the managed block, and whether
/// a domain was seen outside it.
pub open spec fn outside_acc(ls: Seq<Seq<char>>, begin: Seq<char>, end: Seq<char>, domains: Seq<Seq<char>>) -> (bool, bool)
    decreases ls.len(),
{
    if ls.len() == 0 {
        (false, false)
    } else {
        let (in_block, found) = outside_acc(ls.drop_last(), begin, end, domains);
        let line = lower(trim(ls.last()));
        if found {
            (in_block, found)
        } else if line == begin {
            (true, false)
        } else if line == end {
            (false, false)
        } else {
            (in_block, !in_block && line_has_domain(line, domains))
        }
    }
}

/// Some domain occurs on a line outside the block `# --- MARKER begin ---` ..
/// `# --- MARKER end ---` (lines trimmed, ASCII case ignored).
pub open spec fn spec_outside_block(text: Seq<char>, domains: Seq<Seq<char>>, marker: Seq<char>) -> bool {
    outside_acc(lines_of(text), lower("# --- "@ + marker + " begin ---"@), lower("# --- "@ + marker + " end ---"@), domains).1
}

/// Whether a domain of `domains` occurs in `text` outside the block that
/// `marker` manages.
pub fn telegram_outside_muzap_block(text: &str, domains: &[&str], marker: &str) -> (r: bool)
    ensures
        r == spec_outside_block(text@, str_views(domains@), marker@),
{
    let mut b = chars_of("# --- ");
    append_chars(&mut b, &chars_of(marker));
    append_chars(&mut b, &chars_of(" begin ---"));
    let begin = lower_vec(&b);
    let mut e = chars_of("# --- ");
    append_chars(&mut e, &chars_of(marker));
    append_chars(&mut e, &chars_of(" end ---"));
    let end = lower_vec(&e);
    let ghost dv_ = str_views(domains@);
    let ls = lines_chars(&chars_of(text));
    let ghost all = views(ls@);
    let mut in_block = false;
    let mut i: usize = 0;
    while i < ls.len()
        invariant
            i <= ls.len(),
            all == views(ls@),
            all == lines_of(text@),
            dv_ == str_views(domains@),
            begin@ == lower("# --- "@ + marker@ + " begin ---"@),
            end@ == lower("# --- "@ + marker@ + " end ---"@),
            outside_acc(all.take(i as int), begin@, end@, dv_) == (in_block, false),
        decreases ls.len() - i,
    {
        assert(all.take(i + 1).drop_last() =~= all.take(i as int));
        assert(all.take(i + 1).last() == ls@[i as int]@);
        let line = lower_vec(&trim_vec(&ls[i]));
        if eq_chars(&line, &begin) {
            in_block = true;
        } else if eq_chars(&line, &end) {
            in_block = false;
        } else if !in_block {
            let mut hit = false;
            let mut j: usize = 0;
            while j < domains.len()
                invariant
                    j <= domains.len(),
                    dv_ == str_views(domains@),
                    hit ==> line_has_domain(line@, dv_),
                    !hit ==> forall|k: int| 0 <= k < j ==> !contains(line@, lower(#[trigger] dv_[k])),
                decreases domains.len() - j,
            {
                if contains_chars(&line, &lower_vec(&chars_of(domains[j]))) {
                    assert(contains(line@, lower(dv_[j as int])));
                    hit = true;
                }
                j = j + 1;
            }
            if hit {
                proof {
                    lemma_outside_found(all, i as int + 1, begin@, end@, dv_);
                }
                return true;
            }
        }
        i = i + 1;
    }
    assert(all.take(ls.len() as int) =~= all);
    false
}

/// Once a domain is seen outside the block, the scan's answer stays yes.
proof fn lemma_outside_found(ls: Seq<Seq<char>>, k: int, begin: Seq<char>, end: Seq<char>, domains: Seq<Seq<char>>)
    requires
        0 <= k <= ls.len(),
        outside_acc(ls.take(k), begin, end, domains).1,
    ensures
        outside_acc(ls, begin, end, domains).1,
    decreases ls.len() - k,
{
    if k < ls.len() {
        assert(ls.take(k + 1).drop_last() =~= ls.take(k));
        lemma_outside_found(ls, k + 1, begin, end, domains);
    } else {
        assert(ls.take(k) =~= ls);
    }
}

pub open spec fn youtube_domains() -> Seq<Seq<char>> {
    seq!["youtube.com"@, "youtu.be"@, "googlevideo.com"@, "ytimg.com"@, "ggpht.com"@, "googleusercontent.com"@]
}

pub open spec fn discord_domains() -> Seq<Seq<char>> {
    seq!["discord.com"@, "discordapp.com"@, "discord.gg"@, "discord.media"@, "gateway.discord.gg"@]
}

pub open spec fn telegram_domains() -> Seq<Seq<char>> {
    seq!["telegram.org"@, "t.me"@, "web.telegram.org"@, "api.telegram.org"@]
}

/// The findings on the `hosts` text: YouTube/Google and Discord entries are
/// doubtful anywhere; Telegram entries only outside the MuZap block.
pub open spec fn spec_hosts_findings(text: Seq<char>) -> Seq<DiagView> {
    seq![
        if spec_contains_any(text, youtube_domains()) {
            dv(DiagLevel::Warn, "hosts (YouTube/Google)"@, "обнаружены записи, это может ломать YouTube/GoogleVideo"@)
        } else {
            dv(DiagLevel::Good, "hosts (YouTube/Google)"@, "подозрительных записей не найдено"@)
        },
        if spec_contains_any(text, discord_domains()) {
            dv(DiagLevel::Warn, "hosts (Discord)"@, "обнаружены записи, это может ломать Discord"@)
        } else {
            dv(DiagLevel::Good, "hosts (Discord)"@, "подозрительных записей не найдено"@)
        },
        if spec_outside_block(text, telegram_domains(), "MuZap"@) {
            dv(DiagLevel::Warn, "hosts (Telegram)"@, "обнаружены записи Telegram ВНЕ блока MuZap (возможен конфликт)"@)
        } else if spec_contains_any(text, telegram_domains()) {
            dv(DiagLevel::Good, "hosts (Telegram)"@, "записи Telegram есть, но выглядят как управляемые MuZap (или отсутствуют вне блока)"@)
        } else {
            dv(DiagLevel::Good, "hosts (Telegram)"@, "записей Telegram не найдено"@)
        },
    ]
}

/// The `hosts` check, given the file's text or, when it could not be read,
/// the reason; `hosts_path` is how the path is shown.
pub fn check_hosts_file(read: Result<String, String>, hosts_path: &str) -> (r: Vec<DiagItem>)
    ensures
        match read {
            Ok(t) => diag_views(r@) == spec_hosts_findings(t@),
            Err(e) => diag_views(r@) == seq![dv(DiagLevel::Warn, "hosts"@, "не удалось прочитать: "@ + hosts_path@ + " ("@ + e@ + ")"@)],
        },
{
    proof {
        reveal_strlit(")");
    }
    let mut out: Vec<DiagItem> = Vec::new();
    let text = match read {
        Ok(t) => t,
        Err(e) => {
            let mut m = chars_of("не удалось прочитать: ");
            append_chars(&mut m, &chars_of(hosts_path));
            append_chars(&mut m, &chars_of(" ("));
            append_chars(&mut m, &chars_of(e.as_str()));
            m.push(')');
            assert(m@ =~= "не удалось прочитать: "@ + hosts_path@ + " ("@ + e@ + ")"@);
            out.push(item_v(DiagLevel::Warn, "hosts", m));
            assert(diag_views(out@) =~= seq![out@[0]@]);
            return out;
        },
    };
    let yt: Vec<&str> = vec!["youtube.com", "youtu.be", "googlevideo.com", "ytimg.com", "ggpht.com", "googleusercontent.com"];
    assert(str_views(yt@) =~= youtube_domains());
    if contains_any_domain(text.as_str(), &yt) {
        out.push(DiagItem::warn("hosts (YouTube/Google)", "обнаружены записи, это может ломать YouTube/GoogleVideo"));
    } else {
        out.push(DiagItem::ok("hosts (YouTube/Google)", "подозрительных записей не найдено"));
    }
    let dc: Vec<&str> = vec!["discord.com", "discordapp.com", "discord.gg", "discord.media", "gateway.discord.gg"];
    assert(str_views(dc@) =~= discord_domains());
    if contains_any_domain(text.as_str(), &dc) {
        out.push(DiagItem::warn("hosts (Discord)", "обнаружены записи, это может ломать Discord"));
    } else {
        out.push(DiagItem::ok("hosts (Discord)", "подозрительных записей не найдено"));
    }
    let tg: Vec<&str> = vec!["telegram.org", "t.me", "web.telegram.org", "api.telegram.org"];
    assert(str_views(tg@) =~= telegram_domains());
    if telegram_outside_muzap_block(text.as_str(), &tg, "MuZap") {
        out.push(DiagItem::warn("hosts (Telegram)", "обнаружены записи Telegram ВНЕ блока MuZap (возможен конфликт)"));
    } else if contains_any_domain(text.as_str(), &tg) {
        out.push(
            DiagItem::ok(
                "hosts (Telegram)",
                "записи Telegram есть, но выглядят как управляемые MuZap (или отсутствуют вне блока)",
            ),
        );
    } else {
        out.push(DiagItem::ok("hosts (Telegram)", "записей Telegram не найдено"));
    }
    assert(diag_views(out@) =~= spec_hosts_findings(text@));
    out
}

/// A system proxy that is switched on (`ProxyEnable` = 1) is always reported
/// as doubtful, naming its server when one is set; any other value, or none,
/// is reported fine.
pub proof fn law_proxy_findings(enable: Option<u32>, server: Option<Seq<char>>)
    ensures
        enable == Some(1u32) ==> spec_proxy(enable, server).level == DiagLevel::Warn,
        enable == Some(1u32) && (server matches Some(sv) && trim(sv).len() > 0) ==> spec_proxy(enable, server).message
            == "включён: "@ + server->0,
        enable != Some(1u32) ==> spec_proxy(enable, server).level == DiagLevel::Good,
{
}

} // verus!
