//! The Windows service that keeps `winws.exe` running with the selected
//! strategy: which command line it starts, what it logs, and when it stops.
//! The service manager, processes and job objects stay with the caller.
use vstd::prelude::*;

use crate::app::{spec_ports, get_game_filter_ports, AppConfig};
use crate::config_files::Strategy;
use crate::error::AppError;
use crate::fmt::{decimal, decimal_chars};
use crate::params::{spec_substitute, substitute_params};
use crate::text::{lemma_replace_char_absent, lemma_replace_char_gone, append_chars, chars_of, eq_ic, eq_ic_chars, lower, lower_vec, replace_all, replace_chars, string_from, string_views, to_string};
use crate::tester::ui::copy_strategy;

verus! {

/// The first strategy whose name equals `selected` up to ASCII case.
pub open spec fn first_strategy(list: Seq<Strategy>, selected: Seq<char>, i: int) -> bool {
    0 <= i < list.len() && eq_ic(list[i].name@, selected) && forall|j: int| 0 <= j < i ==> !eq_ic(#[trigger] list[j].name@, selected)
}

/// The strategy the service runs and its `winws.exe` parameters: the
/// strategy named `selected` (ASCII case ignored, the first match) with its
/// placeholders filled from the bin and lists folders and the configured
/// game ports. An unknown name is an error.
pub fn winws_launch(strategies: &[Strategy], selected: &str, cfg: &AppConfig, bin_path: &str, lists_path: &str) -> (r: Result<(Strategy, String), AppError>)
    ensures
        r is Err <==> forall|i: int| 0 <= i < strategies@.len() ==> !eq_ic(#[trigger] strategies@[i].name@, selected@),
        r is Err ==> (r matches Err(AppError::Msg(m)) && m@ == "Выбранная стратегия не найдена в strategies.ini: '"@ + selected@ + "'"@),
        r matches Ok((s, params)) ==> exists|i: int| first_strategy(strategies@, selected@, i) && s@ == #[trigger] strategies@[i]@
            && params@ == spec_substitute(strategies@[i].params@, bin_path@, lists_path@, spec_ports(cfg.game_filter_mode).0, spec_ports(cfg.game_filter_mode).1),
{
    let wanted = chars_of(selected);
    let mut i: usize = 0;
    while i < strategies.len()
        invariant
            i <= strategies.len(),
            wanted@ == selected@,
            forall|j: int| 0 <= j < i ==> !eq_ic(#[trigger] strategies@[j].name@, selected@),
        decreases strategies.len() - i,
    {
        if eq_ic_chars(&chars_of(strategies[i].name.as_str()), &wanted) {
            let s = copy_strategy(&strategies[i]);
            let ports = get_game_filter_ports(cfg);
            let params = substitute_params(s.params.as_str(), bin_path, lists_path, ports.tcp.as_str(), ports.udp.as_str());
            assert(first_strategy(strategies@, selected@, i as int));
            return Ok((s, params));
        }
        i = i + 1;
    }
    let mut m = chars_of("Выбранная стратегия не найдена в strategies.ini: '");
    append_chars(&mut m, &wanted);
    let ghost before = m@;
    m.push('\'');
    proof {
        reveal_strlit("'");
        assert(m@ =~= before + "'"@);
    }
    Err(AppError::Msg(string_from(&m)))
}

/// The name of a Windows error code the job-object calls report.
pub open spec fn spec_winerr_hint(code: u32) -> Seq<char> {
    if code == 5 {
        "ERROR_ACCESS_DENIED"@
    } else if code == 6 {
        "ERROR_INVALID_HANDLE"@
    } else if code == 87 {
        "ERROR_INVALID_PARAMETER"@
    } else {
        "UNKNOWN"@
    }
}

/// The name of a Windows error code (5, 6, 87), `UNKNOWN` for others.
pub fn winerr_hint(code: u32) -> (r: &'static str)
    ensures
        r@ == spec_winerr_hint(code),
{
    if code == 5 {
        "ERROR_ACCESS_DENIED"
    } else if code == 6 {
        "ERROR_INVALID_HANDLE"
    } else if code == 87 {
        "ERROR_INVALID_PARAMETER"
    } else {
        "UNKNOWN"
    }
}

pub open spec fn bool_word(b: bool) -> Seq<char> {
    if b { "true"@ } else { "false"@ }
}

/// The log lines about the job object after starting `winws.exe`: whether it
/// was in a job before (when known), then either the attach failure with its
/// code, hint and consequences, or the attach.
pub open spec fn spec_job_log(in_job: Option<bool>, attach_error: Option<u32>) -> Seq<Seq<char>> {
    seq![match in_job {
        Some(b) => "[ИНФО] winws.exe до привязки: IsProcessInJob(any) = "@ + bool_word(b),
        None => "[ИНФО] winws.exe до привязки: IsProcessInJob(any) = (не удалось определить)"@,
    }] + match attach_error {
        Some(code) => seq![
            "[ПРЕДУПРЕЖДЕНИЕ] Не удалось привязать winws.exe к Job Object. WinAPI error="@ + decimal(code as nat) + " ("@ + spec_winerr_hint(code) + ")"@,
            "[ПРЕДУПРЕЖДЕНИЕ] Продолжаю работу без Job Object. При аварийном завершении службы winws.exe может остаться запущенным."@,
            "[ПОДСКАЗКА] Это часто бывает, если процесс уже находится в Job Object (sandbox/дебаггер/агенты)."@,
        ],
        None => seq!["[ИНФО] winws.exe привязан к Job Object (KILL_ON_JOB_CLOSE)."@],
    }
}

/// The job-object log lines.
pub fn job_log_lines(in_job: Option<bool>, attach_error: Option<u32>) -> (r: Vec<String>)
    ensures
        string_views(r@) == spec_job_log(in_job, attach_error),
{
    let mut out: Vec<String> = Vec::new();
    match in_job {
        Some(b) => {
            let mut m = chars_of("[ИНФО] winws.exe до привязки: IsProcessInJob(any) = ");
            append_chars(&mut m, &chars_of(if b { "true" } else { "false" }));
            out.push(string_from(&m));
        },
        None => out.push(to_string("[ИНФО] winws.exe до привязки: IsProcessInJob(any) = (не удалось определить)")),
    }
    match attach_error {
        Some(code) => {
            let mut m = chars_of("[ПРЕДУПРЕЖДЕНИЕ] Не удалось привязать winws.exe к Job Object. WinAPI error=");
            append_chars(&mut m, &decimal_chars(code as u64));
            append_chars(&mut m, &chars_of(" ("));
            append_chars(&mut m, &chars_of(winerr_hint(code)));
            append_chars(&mut m, &chars_of(")"));
            out.push(string_from(&m));
            out.push(to_string("[ПРЕДУПРЕЖДЕНИЕ] Продолжаю работу без Job Object. При аварийном завершении службы winws.exe может остаться запущенным."));
            out.push(to_string("[ПОДСКАЗКА] Это часто бывает, если процесс уже находится в Job Object (sandbox/дебаггер/агенты)."));
        },
        None => out.push(to_string("[ИНФО] winws.exe привязан к Job Object (KILL_ON_JOB_CLOSE).")),
    }
    assert(string_views(out@) =~= spec_job_log(in_job, attach_error));
    out
}

/// A process name of `winws` (with or without `.exe`), ASCII case ignored.
pub fn is_winws_name(name: &str) -> (r: bool)
    ensures
        r == (lower(name@) == "winws.exe"@ || lower(name@) == "winws"@),
{
    let l = lower_vec(&chars_of(name));
    crate::text::eq_str(&l, "winws.exe") || crate::text::eq_str(&l, "winws")
}

/// `\\` made `/`, then ASCII lower case.
pub open spec fn spec_path_key(path: Seq<char>) -> Seq<char> {
    lower(replace_all(path, seq!['\\'], seq!['/']))
}

/// The form in which executable paths are compared: `/` separators, ASCII lower case.
pub fn path_key(path: &str) -> (r: String)
    ensures
        r@ == spec_path_key(path@),
{
    let mut bs: Vec<char> = Vec::new();
    bs.push('\\');
    let mut sl: Vec<char> = Vec::new();
    sl.push('/');
    assert(bs@ =~= seq!['\\']);
    assert(sl@ =~= seq!['/']);
    string_from(&lower_vec(&replace_chars(&chars_of(path), &bs, &sl)))
}

/// What the service loop does next.
pub enum ServiceTick {
    /// Stop was requested: leave the loop.
    Stop,
    /// `winws.exe` ended: log this line and leave the loop.
    Exited(String),
    /// Keep waiting, logging this line first when there is one.
    Wait(Option<String>),
}

/// How `try_wait` on `winws.exe` answered.
pub enum ChildPoll {
    /// It ended; its exit status as shown.
    Exited(String),
    /// Still running.
    Running,
    /// The poll failed, for this reason.
    Failed(String),
}

/// One turn of the service loop: a stop request ends it; otherwise an ended
/// `winws.exe` ends it with a warning; a failed poll is logged and the loop goes on.
pub fn service_tick(stop_requested: bool, poll: ChildPoll) -> (r: ServiceTick)
    ensures
        stop_requested ==> r is Stop,
        !stop_requested ==> match poll {
            ChildPoll::Exited(st) => r matches ServiceTick::Exited(l) && l@ == "[ПРЕДУПРЕЖДЕНИЕ] winws завершился: "@ + st@,
            ChildPoll::Running => r matches ServiceTick::Wait(None),
            ChildPoll::Failed(e) => r matches ServiceTick::Wait(Some(l)) && l@ == "[ПРЕДУПРЕЖДЕНИЕ] Ошибка try_wait() для winws: "@ + e@,
        },
{
    if stop_requested {
        return ServiceTick::Stop;
    }
    match poll {
        ChildPoll::Exited(st) => {
            let mut m = chars_of("[ПРЕДУПРЕЖДЕНИЕ] winws завершился: ");
            append_chars(&mut m, &chars_of(st.as_str()));
            ServiceTick::Exited(string_from(&m))
        },
        ChildPoll::Running => ServiceTick::Wait(None),
        ChildPoll::Failed(e) => {
            let mut m = chars_of("[ПРЕДУПРЕЖДЕНИЕ] Ошибка try_wait() для winws: ");
            append_chars(&mut m, &chars_of(e.as_str()));
            ServiceTick::Wait(Some(string_from(&m)))
        },
    }
}

/// A log line with its time stamp (seconds since the Unix epoch): `[ts] line`.
pub fn log_entry(ts: u64, line: &str) -> (r: String)
    ensures
        r@ == seq!['['] + decimal(ts as nat) + "] "@ + line@,
{
    let mut m: Vec<char> = Vec::new();
    m.push('[');
    append_chars(&mut m, &decimal_chars(ts));
    append_chars(&mut m, &chars_of("] "));
    append_chars(&mut m, &chars_of(line));
    string_from(&m)
}

/// Whether a console program pauses before closing: never with
/// `--no-pause`; otherwise unless its parent is known to be a shell that
/// keeps the window (`cmd.exe`, `powershell.exe`, `pwsh.exe`, `wt.exe`,
/// `windowsterminal.exe`); an unknown parent or Explorer means pause.
pub fn should_pause_on_exit(no_pause: bool, parent_name: Option<&str>) -> (r: bool)
    ensures
        no_pause ==> !r,
        !no_pause && parent_name is None ==> r,
        !no_pause ==> (parent_name matches Some(n) ==> r == !(lower(n@) == "cmd.exe"@ || lower(n@) == "powershell.exe"@
            || lower(n@) == "pwsh.exe"@ || lower(n@) == "wt.exe"@ || lower(n@) == "windowsterminal.exe"@)),
{
    if no_pause {
        return false;
    }
    let n = match parent_name {
        None => {
            return true;
        },
        Some(n) => lower_vec(&chars_of(n)),
    };
    if crate::text::eq_str(&n, "explorer.exe") {
        proof {
            reveal_strlit("explorer.exe");
            reveal_strlit("cmd.exe");
            reveal_strlit("powershell.exe");
            reveal_strlit("pwsh.exe");
            reveal_strlit("wt.exe");
            reveal_strlit("windowsterminal.exe");
            assert("explorer.exe"@[0] == 'e');
            assert("cmd.exe"@[0] == 'c');
            assert("powershell.exe"@[0] == 'p');
            assert("pwsh.exe"@[0] == 'p' && "pwsh.exe"@.len() == 8);
            assert("wt.exe"@[0] == 'w');
            assert("windowsterminal.exe"@[0] == 'w');
        }
        return true;
    }
    !(crate::text::eq_str(&n, "cmd.exe") || crate::text::eq_str(&n, "powershell.exe") || crate::text::eq_str(&n, "pwsh.exe")
        || crate::text::eq_str(&n, "wt.exe") || crate::text::eq_str(&n, "windowsterminal.exe"))
}

/// The key executable paths are compared by holds no `\\` and no ASCII
/// capital; a path already in that form is its own key.
pub proof fn law_path_keys(path: Seq<char>)
    ensures
        forall|i: int| 0 <= i < spec_path_key(path).len() ==> spec_path_key(path)[i] != '\\' && !('A' <= spec_path_key(path)[i] <= 'Z'),
        (forall|i: int| 0 <= i < path.len() ==> path[i] != '\\' && !('A' <= path[i] <= 'Z')) ==> spec_path_key(path) == path,
{
    let r = replace_all(path, seq!['\\'], seq!['/']);
    lemma_replace_char_gone(path, '\\', seq!['/']);
    assert forall|i: int| 0 <= i < spec_path_key(path).len() implies spec_path_key(path)[i] != '\\' && !('A' <= spec_path_key(path)[i] <= 'Z') by {
        assert(spec_path_key(path)[i] == crate::text::lower_c(r[i]));
        if 'A' <= r[i] <= 'Z' {
            assert('a' <= crate::text::lower_c(r[i]) <= 'z');
        }
    }
    if (forall|i: int| 0 <= i < path.len() ==> path[i] != '\\' && !('A' <= path[i] <= 'Z')) {
        lemma_replace_char_absent(path, '\\', seq!['/']);
        assert(lower(path) =~= path);
    }
}

} // verus!
