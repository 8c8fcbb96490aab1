//! The fixes screen: the registry value it writes and the report lines of
//! each fix, given what the system calls answered.
use vstd::prelude::*;

use crate::fmt::{decimal, decimal_chars};
use crate::text::{append_chars, chars_of, string_from, string_views, to_string};

verus! {

/// The `Tcp1323Opts` value before and after switching timestamps on: the
/// current value (0 when missing) and the same with bit 1 set. The caller
/// writes the new value only where the two differ.
pub fn enable_tcp_timestamps_bit(current: Option<u32>) -> (r: (u32, u32))
    ensures
        r.0 == match current { Some(v) => v, None => 0 },
        r.1 == r.0 | 2u32,
{
    let old: u32 = match current {
        Some(v) => v,
        None => 0,
    };
    (old, old | 2u32)
}

/// `{:?}` of an optional exit code: `Some(n)` or `None`.
pub open spec fn debug_code(c: Option<i32>) -> Seq<char> {
    match c {
        Some(n) => "Some("@ + (if n < 0 { "-"@ + decimal((-n) as nat) } else { decimal(n as nat) }) + ")"@,
        None => "None"@,
    }
}

fn debug_code_chars(c: Option<i32>) -> (r: Vec<char>)
    ensures
        r@ == debug_code(c),
{
    proof {
        reveal_strlit(")");
    }
    match c {
        Some(n) => {
            let mut v = chars_of("Some(");
            if n < 0 {
                v.push('-');
                let m: i64 = -(n as i64);
                append_chars(&mut v, &decimal_chars(m as u64));
                proof {
                    reveal_strlit("-");
                }
            } else {
                append_chars(&mut v, &decimal_chars(n as u64));
            }
            v.push(')');
            assert(v@ =~= debug_code(c));
            v
        },
        None => chars_of("None"),
    }
}

/// How `netsh interface tcp set global timestamps=enabled` went.
pub enum NetshOutcome {
    /// It ran and succeeded.
    Success,
    /// It ran and failed with this exit code.
    Failed(Option<i32>),
    /// It could not be started, for this reason.
    NotStarted(String),
}

pub open spec fn spec_registry_line(reg: Result<(u32, u32), Seq<char>>) -> Seq<char> {
    match reg {
        Ok((old, newv)) => if old == newv {
            "[OK] Реестр: Tcp1323Opts уже содержит timestamps (Tcp1323Opts="@ + decimal(old as nat) + ")."@
        } else {
            "[OK] Реестр: Tcp1323Opts обновлён: "@ + decimal(old as nat) + " -> "@ + decimal(newv as nat) + "."@
        },
        Err(e) => "[?] Реестр: не удалось обновить Tcp1323Opts (best-effort): "@ + e,
    }
}

pub open spec fn spec_netsh_line(n: NetshOutcome) -> Seq<char> {
    match n {
        NetshOutcome::Success => "[OK] netsh: timestamps=enabled выполнено."@,
        NetshOutcome::Failed(c) => "[?] netsh: команда завершилась с кодом: "@ + debug_code(c),
        NetshOutcome::NotStarted(e) => "[?] netsh: не удалось запустить netsh: "@ + e@,
    }
}

/// The report of the TCP timestamps fix, given the registry update's values
/// (or its error) and how `netsh` went.
pub fn tcp_timestamps_report(reg: Result<(u32, u32), String>, netsh: NetshOutcome) -> (r: Vec<String>)
    ensures
        string_views(r@) == seq![
            "Исправление: включить TCP timestamps"@,
            spec_registry_line(match reg { Ok(p) => Ok(p), Err(e) => Err(e@) }),
            spec_netsh_line(netsh),
        ],
{
    let mut out: Vec<String> = Vec::new();
    out.push(to_string("Исправление: включить TCP timestamps"));
    let line = match &reg {
        Ok((old, newv)) => {
            if *old == *newv {
                let mut v = chars_of("[OK] Реестр: Tcp1323Opts уже содержит timestamps (Tcp1323Opts=");
                append_chars(&mut v, &decimal_chars(*old as u64));
                append_chars(&mut v, &chars_of(")."));
                v
            } else {
                let mut v = chars_of("[OK] Реестр: Tcp1323Opts обновлён: ");
                append_chars(&mut v, &decimal_chars(*old as u64));
                append_chars(&mut v, &chars_of(" -> "));
                append_chars(&mut v, &decimal_chars(*newv as u64));
                append_chars(&mut v, &chars_of("."));
                v
            }
        },
        Err(e) => {
            let mut v = chars_of("[?] Реестр: не удалось обновить Tcp1323Opts (best-effort): ");
            append_chars(&mut v, &chars_of(e.as_str()));
            v
        },
    };
    out.push(string_from(&line));
    let nl = match &netsh {
        NetshOutcome::Success => chars_of("[OK] netsh: timestamps=enabled выполнено."),
        NetshOutcome::Failed(c) => {
            let mut v = chars_of("[?] netsh: команда завершилась с кодом: ");
            append_chars(&mut v, &debug_code_chars(*c));
            v
        },
        NetshOutcome::NotStarted(e) => {
            let mut v = chars_of("[?] netsh: не удалось запустить netsh: ");
            append_chars(&mut v, &chars_of(e.as_str()));
            v
        },
    };
    out.push(string_from(&nl));
    assert(string_views(out@) =~= seq![
        "Исправление: включить TCP timestamps"@,
        spec_registry_line(match reg { Ok(p) => Ok(p), Err(e) => Err(e@) }),
        spec_netsh_line(netsh),
    ]);
    out
}

/// How stopping and deleting one service went.
pub enum ServiceFixOutcome {
    /// The service is not installed.
    NotInstalled,
    /// Stop (when it was not stopped) and delete were sent.
    Sent { stop_sent: bool },
    /// The service manager could not be reached, for this reason.
    Failed(String),
}

/// The report lines for one service.
pub open spec fn spec_service_fix_lines(name: Seq<char>, o: ServiceFixOutcome) -> Seq<Seq<char>> {
    match o {
        ServiceFixOutcome::NotInstalled => seq!["[OK] "@ + name + ": не установлена (пропуск)."@],
        ServiceFixOutcome::Sent { stop_sent } => if stop_sent {
            seq!["[OK] "@ + name + ": stop отправлен."@, "[OK] "@ + name + ": delete отправлен."@]
        } else {
            seq!["[OK] "@ + name + ": delete отправлен."@]
        },
        ServiceFixOutcome::Failed(e) => seq!["[?] "@ + name + ": не удалось обработать (best-effort): "@ + e@],
    }
}

fn framed(a: &str, name: &str, b: &str) -> (r: String)
    ensures
        r@ == a@ + name@ + b@,
{
    let mut v = chars_of(a);
    append_chars(&mut v, &chars_of(name));
    append_chars(&mut v, &chars_of(b));
    string_from(&v)
}

/// The report lines of stopping and deleting the service `name`.
pub fn service_fix_lines(name: &str, outcome: &ServiceFixOutcome) -> (r: Vec<String>)
    ensures
        string_views(r@) == spec_service_fix_lines(name@, *outcome),
{
    let mut out: Vec<String> = Vec::new();
    match outcome {
        ServiceFixOutcome::NotInstalled => {
            out.push(framed("[OK] ", name, ": не установлена (пропуск)."));
        },
        ServiceFixOutcome::Sent { stop_sent } => {
            if *stop_sent {
                out.push(framed("[OK] ", name, ": stop отправлен."));
            }
            out.push(framed("[OK] ", name, ": delete отправлен."));
        },
        ServiceFixOutcome::Failed(e) => {
            let mut v = chars_of("[?] ");
            append_chars(&mut v, &chars_of(name));
            append_chars(&mut v, &chars_of(": не удалось обработать (best-effort): "));
            append_chars(&mut v, &chars_of(e.as_str()));
            out.push(string_from(&v));
        },
    }
    assert(string_views(out@) =~= spec_service_fix_lines(name@, *outcome));
    out
}

/// The services the conflicting-services fix removes.
pub open spec fn conflicting_services() -> Seq<Seq<char>> {
    seq!["GoodbyeDPI"@, "discordfix_zapret"@, "winws1"@, "winws2"@, "zapret"@]
}

/// The services the WinDivert fix removes.
pub open spec fn windivert_services() -> Seq<Seq<char>> {
    seq!["WinDivert"@, "WinDivert14"@]
}

/// The lines for a list of services and their outcomes, in order.
pub open spec fn services_lines(names: Seq<Seq<char>>, outcomes: Seq<ServiceFixOutcome>) -> Seq<Seq<char>>
    decreases names.len(),
{
    if names.len() == 0 || outcomes.len() == 0 {
        Seq::empty()
    } else {
        services_lines(names.drop_last(), outcomes.drop_last()) + spec_service_fix_lines(names.last(), outcomes.last())
    }
}

fn services_report(names: &Vec<&str>, outcomes: &[ServiceFixOutcome], out: &mut Vec<String>)
    requires
        names.len() == outcomes.len(),
    ensures
        string_views(final(out)@) == string_views(old(out)@) + services_lines(names@.map_values(|s: &str| s@), outcomes@),
{
    let ghost ns = names@.map_values(|s: &str| s@);
    let ghost start = string_views(out@);
    let mut i: usize = 0;
    while i < names.len()
        invariant
            i <= names.len() == outcomes.len(),
            ns == names@.map_values(|s: &str| s@),
            string_views(out@) == start + services_lines(ns.take(i as int), outcomes@.take(i as int)),
        decreases names.len() - i,
    {
        let lines = service_fix_lines(names[i], &outcomes[i]);
        let mut j: usize = 0;
        let ghost mid = string_views(out@);
        while j < lines.len()
            invariant
                j <= lines.len(),
                string_views(out@) == mid + string_views(lines@).take(j as int),
            decreases lines.len() - j,
        {
            let ghost before = out@;
            out.push(lines[j].clone());
            assert(string_views(out@) =~= string_views(before).push(lines@[j as int]@));
            j = j + 1;
            assert(string_views(out@) =~= mid + string_views(lines@).take(j as int));
        }
        assert(string_views(lines@).take(lines.len() as int) =~= string_views(lines@));
        assert(ns.take(i + 1).drop_last() =~= ns.take(i as int));
        assert(outcomes@.take(i + 1).drop_last() =~= outcomes@.take(i as int));
        assert(string_views(out@) =~= start + services_lines(ns.take(i + 1), outcomes@.take(i + 1)));
        i = i + 1;
    }
    assert(ns.take(names.len() as int) =~= ns);
    assert(outcomes@.take(names.len() as int) =~= outcomes@);
}

pub open spec fn killed_line(killed: nat) -> Seq<char> {
    if killed > 0 { "[OK] Завершено процессов winws: "@ + decimal(killed) } else { "[OK] winws не найден (не запущен)"@ }
}

/// The report of the conflicting-services fix: the `winws` processes ended,
/// then each service of `conflicting_services()` with its outcome.
pub fn conflicting_services_report(killed: u64, outcomes: &[ServiceFixOutcome]) -> (r: Vec<String>)
    requires
        outcomes.len() == 5,
    ensures
        string_views(r@) == seq!["Исправление: конфликтующие службы/процессы"@, killed_line(killed as nat)]
            + services_lines(conflicting_services(), outcomes@),
{
    let mut out: Vec<String> = Vec::new();
    out.push(to_string("Исправление: конфликтующие службы/процессы"));
    if killed > 0 {
        let mut v = chars_of("[OK] Завершено процессов winws: ");
        append_chars(&mut v, &decimal_chars(killed));
        out.push(string_from(&v));
    } else {
        out.push(to_string("[OK] winws не найден (не запущен)"));
    }
    let names: Vec<&str> = vec!["GoodbyeDPI", "discordfix_zapret", "winws1", "winws2", "zapret"];
    assert(names@.map_values(|s: &str| s@) =~= conflicting_services());
    services_report(&names, outcomes, &mut out);
    out
}

/// The report of the WinDivert fix: each service of `windivert_services()` with its outcome.
pub fn windivert_services_report(outcomes: &[ServiceFixOutcome]) -> (r: Vec<String>)
    requires
        outcomes.len() == 2,
    ensures
        string_views(r@) == seq!["Исправление: удалить службы WinDivert"@] + services_lines(windivert_services(), outcomes@),
{
    let mut out: Vec<String> = Vec::new();
    out.push(to_string("Исправление: удалить службы WinDivert"));
    let names: Vec<&str> = vec!["WinDivert", "WinDivert14"];
    assert(names@.map_values(|s: &str| s@) =~= windivert_services());
    services_report(&names, outcomes, &mut out);
    out
}

/// The removal of one cache folder: its shown path and the error, if any.
pub open spec fn deletion_line(path: Seq<char>, err: Option<Seq<char>>) -> Seq<char> {
    match err {
        None => "[OK] Удалено: "@ + path,
        Some(e) => "[?] Не удалось удалить "@ + path + ": "@ + e,
    }
}

pub open spec fn deletion_lines(d: Seq<(String, Option<String>)>) -> Seq<Seq<char>> {
    Seq::new(d.len(), |i: int| deletion_line(d[i].0@, match d[i].1 { Some(e) => Some(e@), None => None }))
}

pub open spec fn deleted_count(d: Seq<(String, Option<String>)>) -> nat
    decreases d.len(),
{
    if d.len() == 0 {
        0
    } else {
        deleted_count(d.drop_last()) + if d.last().1 is None { 1nat } else { 0nat }
    }
}

/// The report of the Discord cache fix, given how many Discord processes
/// were ended and the outcome of each cache folder found.
pub fn discord_cache_report(killed: u64, deletions: &[(String, Option<String>)]) -> (r: Vec<String>)
    ensures
        string_views(r@) == seq![
            "Исправление: очистить кэш Discord"@,
            if killed > 0 { "[OK] Discord закрыт (процессов завершено: "@ + decimal(killed as nat) + ")."@ } else { "[OK] Discord не запущен."@ },
        ] + deletion_lines(deletions@) + if deleted_count(deletions@) == 0 {
            seq!["[OK] Папки кэша не найдены (или уже удалены)."@]
        } else {
            Seq::empty()
        },
{
    let mut out: Vec<String> = Vec::new();
    out.push(to_string("Исправление: очистить кэш Discord"));
    if killed > 0 {
        let mut v = chars_of("[OK] Discord закрыт (процессов завершено: ");
        append_chars(&mut v, &decimal_chars(killed));
        append_chars(&mut v, &chars_of(")."));
        out.push(string_from(&v));
    } else {
        out.push(to_string("[OK] Discord не запущен."));
    }
    let ghost head = string_views(out@);
    assert(head =~= seq![
        "Исправление: очистить кэш Discord"@,
        if killed > 0 { "[OK] Discord закрыт (процессов завершено: "@ + decimal(killed as nat) + ")."@ } else { "[OK] Discord не запущен."@ },
    ]);
    let mut deleted: usize = 0;
    let mut i: usize = 0;
    while i < deletions.len()
        invariant
            i <= deletions.len(),
            string_views(out@) == head + deletion_lines(deletions@.take(i as int)),
            deleted == deleted_count(deletions@.take(i as int)),
            deleted <= i,
        decreases deletions.len() - i,
    {
        assert(deletions@.take(i + 1).drop_last() =~= deletions@.take(i as int));
        let (p, e) = &deletions[i];
        let line = match e {
            None => {
                deleted = deleted + 1;
                let mut v = chars_of("[OK] Удалено: ");
                append_chars(&mut v, &chars_of(p.as_str()));
                v
            },
            Some(err) => {
                let mut v = chars_of("[?] Не удалось удалить ");
                append_chars(&mut v, &chars_of(p.as_str()));
                append_chars(&mut v, &chars_of(": "));
                append_chars(&mut v, &chars_of(err.as_str()));
                v
            },
        };
        let ghost before = out@;
        out.push(string_from(&line));
        assert(string_views(out@) =~= string_views(before).push(line@));
        assert(deletion_lines(deletions@.take(i + 1)) =~= deletion_lines(deletions@.take(i as int)).push(line@));
        i = i + 1;
    }
    assert(deletions@.take(deletions.len() as int) =~= deletions@);
    if deleted == 0 {
        let ghost before = out@;
        out.push(to_string("[OK] Папки кэша не найдены (или уже удалены)."));
        assert(string_views(out@) =~= string_views(before).push("[OK] Папки кэша не найдены (или уже удалены)."@));
    }
    assert(string_views(out@) =~= seq![
        "Исправление: очистить кэш Discord"@,
        if killed > 0 { "[OK] Discord закрыт (процессов завершено: "@ + decimal(killed as nat) + ")."@ } else { "[OK] Discord не запущен."@ },
    ] + deletion_lines(deletions@) + if deleted_count(deletions@) == 0 {
        seq!["[OK] Папки кэша не найдены (или уже удалены)."@]
    } else {
        Seq::empty()
    });
    out
}

/// The report of all fixes: a title, a blank line, then the four reports
/// separated by blank lines.
pub fn fix_all_report(a: Vec<String>, b: Vec<String>, c: Vec<String>, d: Vec<String>) -> (r: Vec<String>)
    ensures
        string_views(r@) == seq!["Исправления: выполнить всё"@, Seq::empty()] + string_views(a@) + seq![Seq::empty()]
            + string_views(b@) + seq![Seq::empty()] + string_views(c@) + seq![Seq::empty()] + string_views(d@),
{
    let ghost (a0, b0, c0, d0) = (string_views(a@), string_views(b@), string_views(c@), string_views(d@));
    let mut out: Vec<String> = Vec::new();
    out.push(to_string("Исправления: выполнить всё"));
    out.push(string_from(&Vec::new()));
    let mut a = a;
    out.append(&mut a);
    out.push(string_from(&Vec::new()));
    let mut b = b;
    out.append(&mut b);
    out.push(string_from(&Vec::new()));
    let mut c = c;
    out.append(&mut c);
    out.push(string_from(&Vec::new()));
    let mut d = d;
    out.append(&mut d);
    proof {
        let e = Seq::<char>::empty();
        assert(string_views(out@) =~= seq!["Исправления: выполнить всё"@, e] + a0 + seq![e] + b0 + seq![e] + c0 + seq![e] + d0);
    }
    out
}

/// The fix and the check agree: whatever `Tcp1323Opts` held (or if it was
/// missing), the value the fix writes is one the diagnostics report as
/// timestamps switched on; other bits are kept.
pub proof fn law_fixed_timestamps_check_good(current: Option<u32>)
    ensures
        ({
            let old = match current { Some(v) => v, None => 0u32 };
            let new = old | 2u32;
            &&& crate::muzap::diagnostics::spec_tcp_timestamps(Some(new)).level == crate::muzap::diagnostics::DiagLevel::Good
            &&& new & !2u32 == old & !2u32
        }),
        current matches Some(v) && v & 2u32 == 0 ==> crate::muzap::diagnostics::spec_tcp_timestamps(current).level
            == crate::muzap::diagnostics::DiagLevel::Warn,
{
    let old = match current { Some(v) => v, None => 0u32 };
    assert((old | 2u32) & 2u32 != 0 && (old | 2u32) & !2u32 == old & !2u32) by (bit_vector);
}

} // verus!
