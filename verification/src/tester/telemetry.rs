//! Anonymous test telemetry: which results are sent, the location fields,
//! and how the server's answer reads. Requests and JSON stay with the caller.
use vstd::prelude::*;

use crate::fmt::{decimal, decimal_chars};
use crate::tester::analytics::{Analytics, StrategyAnalytics};
use crate::tester::ui::TestType;
use crate::text::{append_chars, chars_of, eq_str, string_from, to_string};

verus! {

/// The counts sent for one strategy.
#[derive(Debug, Clone, Copy)]
pub struct StrategyTelemetry {
    pub ok: u32,
    pub err: u32,
    pub unsup: u32,
    pub ping_ok: u32,
    pub ping_fail: u32,
}

/// The standard entries of the analytics, in order, with their counts.
pub open spec fn standard_entries(a: Seq<(String, StrategyAnalytics)>) -> Seq<(Seq<char>, StrategyTelemetry)>
    decreases a.len(),
{
    if a.len() == 0 {
        Seq::empty()
    } else {
        let prev = standard_entries(a.drop_last());
        match a.last().1 {
            StrategyAnalytics::Standard(s) => prev.push(
                (a.last().0@, StrategyTelemetry { ok: s.ok, err: s.error, unsup: s.unsup, ping_ok: s.ping_ok, ping_fail: s.ping_fail }),
            ),
            StrategyAnalytics::Dpi(_) => prev,
        }
    }
}

/// The results telemetry sends: the standard entries only (DPI results are not sent).
pub fn telemetry_results(a: &Analytics) -> (r: Vec<(String, StrategyTelemetry)>)
    ensures
        r@.map_values(|e: (String, StrategyTelemetry)| (e.0@, e.1)) == standard_entries(a@),
{
    let mut out: Vec<(String, StrategyTelemetry)> = Vec::new();
    let mut i: usize = 0;
    while i < a.len()
        invariant
            i <= a.len(),
            out@.map_values(|e: (String, StrategyTelemetry)| (e.0@, e.1)) == standard_entries(a@.take(i as int)),
        decreases a.len() - i,
    {
        assert(a@.take(i + 1).drop_last() =~= a@.take(i as int));
        let ghost before = out@;
        match &a[i].1 {
            StrategyAnalytics::Standard(s) => {
                let t = StrategyTelemetry { ok: s.ok, err: s.error, unsup: s.unsup, ping_ok: s.ping_ok, ping_fail: s.ping_fail };
                out.push((a[i].0.clone(), t));
                assert(out@.map_values(|e: (String, StrategyTelemetry)| (e.0@, e.1)) =~= before.map_values(
                    |e: (String, StrategyTelemetry)| (e.0@, e.1),
                ).push((a@[i as int].0@, t)));
            },
            StrategyAnalytics::Dpi(_) => {},
        }
        i = i + 1;
    }
    assert(a@.take(a.len() as int) =~= a@);
    out
}

/// What happens about telemetry after a run: standard runs send when it is
/// enabled and say it is off otherwise; DPI runs do neither.
#[derive(Debug, Clone, Copy, PartialEq, Eq, Structural)]
pub enum TelemetryAction {
    Send,
    SayDisabled,
    Nothing,
}

pub fn telemetry_action(test_type: TestType, enabled: bool) -> (r: TelemetryAction)
    ensures
        r == if test_type == TestType::Standard {
            if enabled { TelemetryAction::Send } else { TelemetryAction::SayDisabled }
        } else {
            TelemetryAction::Nothing
        },
{
    match test_type {
        TestType::Standard => if enabled {
            TelemetryAction::Send
        } else {
            TelemetryAction::SayDisabled
        },
        TestType::Dpi => TelemetryAction::Nothing,
    }
}

pub open spec fn or_unknown(v: Option<String>) -> Seq<char> {
    match v {
        Some(s) => s@,
        None => "Unknown"@,
    }
}

/// The location sent (ISP, region, country code): the lookup's fields when it
/// answered with status `success`, `Unknown` for a missing field; all
/// `Unknown` otherwise (`status` is `None` when the lookup failed).
pub fn geo_fields(status: Option<&str>, isp: Option<String>, region: Option<String>, country: Option<String>) -> (r: (String, String, String))
    ensures
        (status matches Some(s) && s@ == "success"@) ==> (r.0@, r.1@, r.2@) == (or_unknown(isp), or_unknown(region), or_unknown(country)),
        !(status matches Some(s) && s@ == "success"@) ==> (r.0@, r.1@, r.2@) == ("Unknown"@, "Unknown"@, "Unknown"@),
{
    let ok = match status {
        Some(s) => eq_str(&chars_of(s), "success"),
        None => false,
    };
    if ok {
        let a = match isp {
            Some(v) => v,
            None => to_string("Unknown"),
        };
        let b = match region {
            Some(v) => v,
            None => to_string("Unknown"),
        };
        let c = match country {
            Some(v) => v,
            None => to_string("Unknown"),
        };
        (a, b, c)
    } else {
        (to_string("Unknown"), to_string("Unknown"), to_string("Unknown"))
    }
}

/// The note before sending: the number of strategies and the location.
pub fn sending_note(count: usize, isp: &str, region: &str, country: &str) -> (r: String)
    ensures
        r@ == "Отправляю результаты ("@ + decimal(count as nat) + " стратегий, ISP: "@ + isp@ + ", "@ + region@ + ", "@ + country@ + ")..."@,
{
    let mut m = chars_of("Отправляю результаты (");
    append_chars(&mut m, &decimal_chars(count as u64));
    append_chars(&mut m, &chars_of(" стратегий, ISP: "));
    append_chars(&mut m, &chars_of(isp));
    append_chars(&mut m, &chars_of(", "));
    append_chars(&mut m, &chars_of(region));
    append_chars(&mut m, &chars_of(", "));
    append_chars(&mut m, &chars_of(country));
    append_chars(&mut m, &chars_of(")..."));
    string_from(&m)
}

/// How the server's answer reads: accepted when its `status` is 200 (a
/// missing status counts as 0); otherwise the status and its `message`.
pub fn reply_outcome(status: Option<u64>, message: Option<&str>) -> (r: (bool, String))
    ensures
        r.0 == (status == Some(200u64)),
        r.0 ==> r.1@ == "Отправлено успешно. Спасибо!"@,
        !r.0 ==> r.1@ == "Сервер ответил: "@ + decimal(match status { Some(s) => s as nat, None => 0 }) + " — "@ + match message {
            Some(m) => m@,
            None => "нет сообщения"@,
        },
{
    let st: u64 = match status {
        Some(s) => s,
        None => 0,
    };
    if st == 200 {
        return (true, to_string("Отправлено успешно. Спасибо!"));
    }
    let mut m = chars_of("Сервер ответил: ");
    append_chars(&mut m, &decimal_chars(st));
    append_chars(&mut m, &chars_of(" — "));
    match message {
        Some(x) => append_chars(&mut m, &chars_of(x)),
        None => append_chars(&mut m, &chars_of("нет сообщения")),
    }
    (false, string_from(&m))
}

} // verus!
