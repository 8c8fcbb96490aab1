//! Per-strategy counts of test outcomes, and the choice of the best strategy.
use vstd::prelude::*;

use crate::tester::checker::{HttpToken, TargetResult};
use crate::tester::dpi::{DpiTargetResult, DpiTestLine};
use crate::tester::RunResult;
use crate::text::{chars_of, eq_str};

verus! {

/// The counts of a standard (HTTP/TLS/ping) run.
#[derive(Debug, Clone, Copy)]
pub struct StandardAnalytics {
    pub ok: u32,
    pub error: u32,
    pub unsup: u32,
    pub ping_ok: u32,
    pub ping_fail: u32,
}

impl Default for StandardAnalytics {
    fn default() -> (r: Self)
        ensures
            r.ok == 0 && r.error == 0 && r.unsup == 0 && r.ping_ok == 0 && r.ping_fail == 0,
    {
        StandardAnalytics { ok: 0, error: 0, unsup: 0, ping_ok: 0, ping_fail: 0 }
    }
}

/// The counts of a DPI run.
#[derive(Debug, Clone, Copy)]
pub struct DpiAnalytics {
    pub ok: u32,
    pub fail: u32,
    pub unsupported: u32,
    pub likely_blocked: u32,
}

impl Default for DpiAnalytics {
    fn default() -> (r: Self)
        ensures
            r.ok == 0 && r.fail == 0 && r.unsupported == 0 && r.likely_blocked == 0,
    {
        DpiAnalytics { ok: 0, fail: 0, unsupported: 0, likely_blocked: 0 }
    }
}

/// The counts of one strategy's run.
#[derive(Debug, Clone, Copy)]
pub enum StrategyAnalytics {
    Standard(StandardAnalytics),
    Dpi(DpiAnalytics),
}

pub open spec fn spec_ok_score(a: StrategyAnalytics) -> int {
    match a {
        StrategyAnalytics::Standard(s) => s.ok as int,
        StrategyAnalytics::Dpi(d) => d.ok as int,
    }
}

pub open spec fn spec_secondary_score(a: StrategyAnalytics) -> int {
    match a {
        StrategyAnalytics::Standard(s) => s.ping_ok as int,
        StrategyAnalytics::Dpi(d) => if d.ok >= d.likely_blocked { d.ok - d.likely_blocked } else { 0 },
    }
}

impl StrategyAnalytics {
    /// The count of good outcomes: successful requests or probes.
    pub fn ok_score(&self) -> (r: u32)
        ensures
            r == spec_ok_score(*self),
    {
        match self {
            StrategyAnalytics::Standard(a) => a.ok,
            StrategyAnalytics::Dpi(a) => a.ok,
        }
    }

    /// The tie-breaker: successful pings, or good probes less blocked ones (at least 0).
    pub fn secondary_score(&self) -> (r: u32)
        ensures
            r == spec_secondary_score(*self),
    {
        match self {
            StrategyAnalytics::Standard(a) => a.ping_ok,
            StrategyAnalytics::Dpi(a) => a.ok.saturating_sub(a.likely_blocked),
        }
    }
}

/// Strategy name and counts; the names are distinct.
pub type Analytics = Vec<(String, StrategyAnalytics)>;

// ------------------------------------------------------------------------
// Counting
// ------------------------------------------------------------------------

/// The class of a request status: 0 `OK`, 1 `UNSUP`, 2 anything else.
pub open spec fn token_class(status: Seq<char>) -> int {
    if status == "OK"@ { 0 } else if status == "UNSUP"@ { 1 } else { 2 }
}

/// The number of tokens of class `k`.
pub open spec fn count_tokens(toks: Seq<HttpToken>, k: int) -> nat
    decreases toks.len(),
{
    if toks.len() == 0 {
        0
    } else {
        count_tokens(toks.drop_last(), k) + if token_class(toks.last().status@) == k { 1nat } else { 0nat }
    }
}

/// What one target adds to count `k`: 0..=2 request classes (URL targets
/// only), 3 successful pings, 4 failed pings.
pub open spec fn target_adds(t: TargetResult, k: int) -> nat {
    if k < 3 {
        if t.is_url { count_tokens(t.http_tokens@, k) } else { 0 }
    } else if k == 3 {
        if t.ping_ms is Some { 1 } else { 0 }
    } else {
        if t.ping_ms is None { 1 } else { 0 }
    }
}

/// Count `k` over the targets.
pub open spec fn std_count(rs: Seq<TargetResult>, k: int) -> nat
    decreases rs.len(),
{
    if rs.len() == 0 {
        0
    } else {
        std_count(rs.drop_last(), k) + target_adds(rs.last(), k)
    }
}

/// One per target plus one per request: a bound on every count.
pub open spec fn std_size(rs: Seq<TargetResult>) -> nat
    decreases rs.len(),
{
    if rs.len() == 0 {
        0
    } else {
        std_size(rs.drop_last()) + 1 + rs.last().http_tokens@.len()
    }
}

/// The counts of a standard run as `build_standard` computes them.
pub open spec fn spec_standard(rs: Seq<TargetResult>) -> (nat, nat, nat, nat, nat) {
    (std_count(rs, 0), std_count(rs, 2), std_count(rs, 1), std_count(rs, 3), std_count(rs, 4))
}

proof fn lemma_count_tokens_sum(toks: Seq<HttpToken>)
    ensures
        count_tokens(toks, 0) + count_tokens(toks, 1) + count_tokens(toks, 2) == toks.len(),
    decreases toks.len(),
{
    if toks.len() > 0 {
        lemma_count_tokens_sum(toks.drop_last());
    }
}

proof fn lemma_std_bound(rs: Seq<TargetResult>)
    ensures
        std_count(rs, 0) + std_count(rs, 1) + std_count(rs, 2) + std_count(rs, 3) + std_count(rs, 4) <= std_size(rs),
    decreases rs.len(),
{
    if rs.len() > 0 {
        lemma_std_bound(rs.drop_last());
        lemma_count_tokens_sum(rs.last().http_tokens@);
    }
}

proof fn lemma_std_size_mono(rs: Seq<TargetResult>, i: int)
    requires
        0 <= i <= rs.len(),
    ensures
        std_size(rs.take(i)) <= std_size(rs),
    decreases rs.len() - i,
{
    if i < rs.len() {
        lemma_std_size_mono(rs, i + 1);
        assert(rs.take(i + 1).drop_last() =~= rs.take(i));
        assert(rs.take(i + 1).last() == rs[i]);
    } else {
        assert(rs.take(i) =~= rs);
    }
}

fn status_class(status: &String) -> (r: u8)
    ensures
        r as int == token_class(status@),
{
    let v = chars_of(status.as_str());
    if eq_str(&v, "OK") {
        0
    } else if eq_str(&v, "UNSUP") {
        1
    } else {
        2
    }
}

/// The counts of a standard run: request outcomes of URL targets by class
/// (`OK`, `UNSUP`, anything else an error), and pings that answered or not.
pub fn build_standard(results: &[TargetResult]) -> (r: StandardAnalytics)
    requires
        std_size(results@) <= u32::MAX,
    ensures
        (r.ok as nat, r.error as nat, r.unsup as nat, r.ping_ok as nat, r.ping_fail as nat) == spec_standard(results@),
{
    let mut a = StandardAnalytics::default();
    let ghost rs = results@;
    proof {
        lemma_std_size_mono(rs, rs.len() as int);
        assert(rs.take(rs.len() as int) =~= rs);
    }
    let mut i: usize = 0;
    while i < results.len()
        invariant
            i <= results.len(),
            rs == results@,
            std_size(rs) <= u32::MAX,
            a.ok == std_count(rs.take(i as int), 0),
            a.unsup == std_count(rs.take(i as int), 1),
            a.error == std_count(rs.take(i as int), 2),
            a.ping_ok == std_count(rs.take(i as int), 3),
            a.ping_fail == std_count(rs.take(i as int), 4),
        decreases results.len() - i,
    {
        let ghost pre = rs.take(i as int);
        let ghost cur = rs.take(i + 1);
        assert(cur.drop_last() =~= pre);
        assert(cur.last() == results@[i as int]);
        proof {
            lemma_std_bound(cur);
            lemma_std_size_mono(rs, i + 1);
        }
        let tr = &results[i];
        if tr.is_url {
            let toks = &tr.http_tokens;
            let mut j: usize = 0;
            let ghost a0 = a;
            while j < toks.len()
                invariant
                    j <= toks.len(),
                    toks@ == tr.http_tokens@,
                    tr.is_url,
                    a.ok == a0.ok + count_tokens(toks@.take(j as int), 0),
                    a.unsup == a0.unsup + count_tokens(toks@.take(j as int), 1),
                    a.error == a0.error + count_tokens(toks@.take(j as int), 2),
                    a.ping_ok == a0.ping_ok,
                    a.ping_fail == a0.ping_fail,
                    a0.ok == std_count(pre, 0),
                    a0.unsup == std_count(pre, 1),
                    a0.error == std_count(pre, 2),
                    std_count(cur, 0) + std_count(cur, 1) + std_count(cur, 2) + std_count(cur, 3) + std_count(cur, 4) <= u32::MAX,
                    std_count(cur, 0) == std_count(pre, 0) + count_tokens(toks@, 0),
                    std_count(cur, 1) == std_count(pre, 1) + count_tokens(toks@, 1),
                    std_count(cur, 2) == std_count(pre, 2) + count_tokens(toks@, 2),
                decreases toks.len() - j,
            {
                let ghost tp = toks@.take(j as int);
                let ghost tc = toks@.take(j + 1);
                assert(tc.drop_last() =~= tp);
                proof {
                    lemma_count_mono(toks@, j + 1);
                }
                let c = status_class(&toks[j].status);
                if c == 0 {
                    a.ok = a.ok + 1;
                } else if c == 1 {
                    a.unsup = a.unsup + 1;
                } else {
                    a.error = a.error + 1;
                }
                j = j + 1;
            }
            assert(toks@.take(toks.len() as int) =~= toks@);
        }
        match tr.ping_ms {
            Some(_) => {
                a.ping_ok = a.ping_ok + 1;
            },
            None => {
                a.ping_fail = a.ping_fail + 1;
            },
        }
        i = i + 1;
    }
    assert(rs.take(results.len() as int) =~= rs);
    a
}

proof fn lemma_count_mono(toks: Seq<HttpToken>, j: int)
    requires
        0 <= j <= toks.len(),
    ensures
        forall|k: int| count_tokens(toks.take(j), k) <= #[trigger] count_tokens(toks, k),
    decreases toks.len() - j,
{
    if j < toks.len() {
        lemma_count_mono(toks, j + 1);
        assert(toks.take(j + 1).drop_last() =~= toks.take(j));
    } else {
        assert(toks.take(j) =~= toks);
    }
}

/// The class of a probe status: 0 `OK`, 1 `UNSUPPORTED`, 2 `LIKELY_BLOCKED`, 3 anything else.
pub open spec fn probe_class(status: Seq<char>) -> int {
    if status == "OK"@ {
        0
    } else if status == "UNSUPPORTED"@ {
        1
    } else if status == "LIKELY_BLOCKED"@ {
        2
    } else {
        3
    }
}

pub open spec fn count_probes(ls: Seq<DpiTestLine>, k: int) -> nat
    decreases ls.len(),
{
    if ls.len() == 0 {
        0
    } else {
        count_probes(ls.drop_last(), k) + if probe_class(ls.last().status@) == k { 1nat } else { 0nat }
    }
}

/// Count `k` over all probes of all hosts.
pub open spec fn dpi_count(rs: Seq<DpiTargetResult>, k: int) -> nat
    decreases rs.len(),
{
    if rs.len() == 0 {
        0
    } else {
        dpi_count(rs.drop_last(), k) + count_probes(rs.last().lines@, k)
    }
}

/// The number of probes.
pub open spec fn dpi_size(rs: Seq<DpiTargetResult>) -> nat
    decreases rs.len(),
{
    if rs.len() == 0 {
        0
    } else {
        dpi_size(rs.drop_last()) + rs.last().lines@.len()
    }
}

/// The counts of a DPI run as `build_dpi` computes them: ok, fail, unsupported, likely blocked.
pub open spec fn spec_dpi(rs: Seq<DpiTargetResult>) -> (nat, nat, nat, nat) {
    (dpi_count(rs, 0), dpi_count(rs, 3), dpi_count(rs, 1), dpi_count(rs, 2))
}

proof fn lemma_count_probes_sum(ls: Seq<DpiTestLine>)
    ensures
        count_probes(ls, 0) + count_probes(ls, 1) + count_probes(ls, 2) + count_probes(ls, 3) == ls.len(),
    decreases ls.len(),
{
    if ls.len() > 0 {
        lemma_count_probes_sum(ls.drop_last());
    }
}

proof fn lemma_dpi_bound(rs: Seq<DpiTargetResult>)
    ensures
        dpi_count(rs, 0) + dpi_count(rs, 1) + dpi_count(rs, 2) + dpi_count(rs, 3) == dpi_size(rs),
    decreases rs.len(),
{
    if rs.len() > 0 {
        lemma_dpi_bound(rs.drop_last());
        lemma_count_probes_sum(rs.last().lines@);
    }
}

proof fn lemma_dpi_size_mono(rs: Seq<DpiTargetResult>, i: int)
    requires
        0 <= i <= rs.len(),
    ensures
        dpi_size(rs.take(i)) <= dpi_size(rs),
    decreases rs.len() - i,
{
    if i < rs.len() {
        lemma_dpi_size_mono(rs, i + 1);
        assert(rs.take(i + 1).drop_last() =~= rs.take(i));
        assert(rs.take(i + 1).last() == rs[i]);
    } else {
        assert(rs.take(i) =~= rs);
    }
}

proof fn lemma_probes_mono(ls: Seq<DpiTestLine>, j: int)
    requires
        0 <= j <= ls.len(),
    ensures
        forall|k: int| count_probes(ls.take(j), k) <= #[trigger] count_probes(ls, k),
    decreases ls.len() - j,
{
    if j < ls.len() {
        lemma_probes_mono(ls, j + 1);
        assert(ls.take(j + 1).drop_last() =~= ls.take(j));
    } else {
        assert(ls.take(j) =~= ls);
    }
}

fn probe_class_exec(status: &String) -> (r: u8)
    ensures
        r as int == probe_class(status@),
{
    let v = chars_of(status.as_str());
    if eq_str(&v, "OK") {
        0
    } else if eq_str(&v, "UNSUPPORTED") {
        1
    } else if eq_str(&v, "LIKELY_BLOCKED") {
        2
    } else {
        3
    }
}

/// The counts of a DPI run: probes by status (`OK`, `UNSUPPORTED`,
/// `LIKELY_BLOCKED`, anything else a failure).
pub fn build_dpi(results: &[DpiTargetResult]) -> (r: DpiAnalytics)
    requires
        dpi_size(results@) <= u32::MAX,
    ensures
        (r.ok as nat, r.fail as nat, r.unsupported as nat, r.likely_blocked as nat) == spec_dpi(results@),
{
    let mut a = DpiAnalytics::default();
    let ghost rs = results@;
    let mut i: usize = 0;
    while i < results.len()
        invariant
            i <= results.len(),
            rs == results@,
            dpi_size(rs) <= u32::MAX,
            a.ok == dpi_count(rs.take(i as int), 0),
            a.unsupported == dpi_count(rs.take(i as int), 1),
            a.likely_blocked == dpi_count(rs.take(i as int), 2),
            a.fail == dpi_count(rs.take(i as int), 3),
        decreases results.len() - i,
    {
        let ghost pre = rs.take(i as int);
        let ghost cur = rs.take(i + 1);
        assert(cur.drop_last() =~= pre);
        assert(cur.last() == results@[i as int]);
        proof {
            lemma_dpi_bound(cur);
            lemma_dpi_size_mono(rs, i + 1);
        }
        let lines = &results[i].lines;
        let mut j: usize = 0;
        let ghost a0 = a;
        while j < lines.len()
            invariant
                j <= lines.len(),
                lines@ == cur.last().lines@,
                a.ok == a0.ok + count_probes(lines@.take(j as int), 0),
                a.unsupported == a0.unsupported + count_probes(lines@.take(j as int), 1),
                a.likely_blocked == a0.likely_blocked + count_probes(lines@.take(j as int), 2),
                a.fail == a0.fail + count_probes(lines@.take(j as int), 3),
                a0.ok == dpi_count(pre, 0),
                a0.unsupported == dpi_count(pre, 1),
                a0.likely_blocked == dpi_count(pre, 2),
                a0.fail == dpi_count(pre, 3),
                dpi_count(cur, 0) + dpi_count(cur, 1) + dpi_count(cur, 2) + dpi_count(cur, 3) <= u32::MAX,
                forall|k: int| dpi_count(cur, k) == dpi_count(pre, k) + count_probes(lines@, k),
            decreases lines.len() - j,
        {
            let ghost lp = lines@.take(j as int);
            assert(lines@.take(j + 1).drop_last() =~= lp);
            proof {
                lemma_probes_mono(lines@, j + 1);
            }
            let c = probe_class_exec(&lines[j].status);
            if c == 0 {
                a.ok = a.ok + 1;
            } else if c == 1 {
                a.unsupported = a.unsupported + 1;
            } else if c == 2 {
                a.likely_blocked = a.likely_blocked + 1;
            } else {
                a.fail = a.fail + 1;
            }
            j = j + 1;
        }
        assert(lines@.take(lines.len() as int) =~= lines@);
        i = i + 1;
    }
    assert(rs.take(results.len() as int) =~= rs);
    a
}

// ------------------------------------------------------------------------
// Per strategy
// ------------------------------------------------------------------------

/// The entry a run contributes: standard counts when it has standard
/// results, else DPI counts when it has DPI results, else none.
pub open spec fn run_entry(r: RunResult) -> Option<StrategyAnalytics> {
    match (r.standard, r.dpi) {
        (Some(s), _) => Some(StrategyAnalytics::Standard(standard_of(s@))),
        (_, Some(d)) => Some(StrategyAnalytics::Dpi(dpi_of(d@))),
        _ => None,
    }
}

pub open spec fn standard_of(rs: Seq<TargetResult>) -> StandardAnalytics {
    let (ok, err, unsup, pok, pfail) = spec_standard(rs);
    StandardAnalytics { ok: ok as u32, error: err as u32, unsup: unsup as u32, ping_ok: pok as u32, ping_fail: pfail as u32 }
}

pub open spec fn dpi_of(rs: Seq<DpiTargetResult>) -> DpiAnalytics {
    let (ok, fail, unsup, blocked) = spec_dpi(rs);
    DpiAnalytics { ok: ok as u32, fail: fail as u32, unsupported: unsup as u32, likely_blocked: blocked as u32 }
}

/// The analytics of the runs as a map: each run's entry under its strategy
/// name, a later run of the same name replacing an earlier one.
pub open spec fn analytics_map(rs: Seq<RunResult>) -> Map<Seq<char>, StrategyAnalytics>
    decreases rs.len(),
{
    if rs.len() == 0 {
        Map::empty()
    } else {
        let m = analytics_map(rs.drop_last());
        match run_entry(rs.last()) {
            Some(e) => m.insert(rs.last().strategy_name@, e),
            None => m,
        }
    }
}

/// The map an entry list stands for.
pub open spec fn entries_map(a: Seq<(String, StrategyAnalytics)>) -> Map<Seq<char>, StrategyAnalytics>
    decreases a.len(),
{
    if a.len() == 0 {
        Map::empty()
    } else {
        entries_map(a.drop_last()).insert(a.last().0@, a.last().1)
    }
}

/// No name occurs twice.
pub open spec fn names_unique(a: Seq<(String, StrategyAnalytics)>) -> bool {
    forall|i: int, j: int| 0 <= i < j < a.len() ==> (#[trigger] a[i]).0@ != (#[trigger] a[j]).0@
}

/// Every run's sizes fit the counters.
pub open spec fn runs_fit(rs: Seq<RunResult>) -> bool {
    forall|i: int|
        0 <= i < rs.len() ==> (match (#[trigger] rs[i]).standard {
            Some(s) => std_size(s@) <= u32::MAX,
            None => true,
        }) && (match rs[i].dpi {
            Some(d) => dpi_size(d@) <= u32::MAX,
            None => true,
        })
}

proof fn lemma_entries_update(a: Seq<(String, StrategyAnalytics)>, idx: int, e: StrategyAnalytics)
    requires
        names_unique(a),
        0 <= idx < a.len(),
    ensures
        entries_map(a.update(idx, (a[idx].0, e))) == entries_map(a).insert(a[idx].0@, e),
        names_unique(a.update(idx, (a[idx].0, e))),
    decreases a.len(),
{
    let u = a.update(idx, (a[idx].0, e));
    assert forall|i: int, j: int| 0 <= i < j < u.len() implies (#[trigger] u[i]).0@ != (#[trigger] u[j]).0@ by {
        assert(u[i].0 == a[i].0);
        assert(u[j].0 == a[j].0);
        assert(a[i].0@ != a[j].0@);
    }
    if idx == a.len() - 1 {
        assert(u.drop_last() =~= a.drop_last());
        assert(entries_map(u) =~= entries_map(a).insert(a[idx].0@, e));
    } else {
        let f = a.drop_last();
        assert forall|i: int, j: int| 0 <= i < j < f.len() implies (#[trigger] f[i]).0@ != (#[trigger] f[j]).0@ by {
            assert(f[i] == a[i]);
            assert(f[j] == a[j]);
        }
        lemma_entries_update(f, idx, e);
        assert(u.drop_last() =~= f.update(idx, (f[idx].0, e)));
        assert(a.last().0@ != a[idx].0@);
        assert(entries_map(u) =~= entries_map(a).insert(a[idx].0@, e));
    }
}

/// The position of the entry named `name`, if any.
fn find_entry(a: &Analytics, name: &String) -> (r: Option<usize>)
    ensures
        match r {
            Some(i) => i < a.len() && a@[i as int].0@ == name@,
            None => forall|i: int| 0 <= i < a.len() ==> (#[trigger] a@[i]).0@ != name@,
        },
{
    let mut i: usize = 0;
    while i < a.len()
        invariant
            i <= a.len(),
            forall|j: int| 0 <= j < i ==> (#[trigger] a@[j]).0@ != name@,
        decreases a.len() - i,
    {
        if a[i].0 == *name {
            return Some(i);
        }
        i = i + 1;
    }
    None
}

/// The counts of every tested strategy, by name: standard counts for a
/// standard run, DPI counts for a DPI run; a run with neither adds nothing,
/// and a later run of the same strategy replaces an earlier one.
pub fn build_analytics(results: &[RunResult]) -> (r: Analytics)
    requires
        runs_fit(results@),
    ensures
        names_unique(r@),
        entries_map(r@) == analytics_map(results@),
{
    let mut out: Analytics = Vec::new();
    let ghost rs = results@;
    let mut i: usize = 0;
    while i < results.len()
        invariant
            i <= results.len(),
            rs == results@,
            runs_fit(rs),
            names_unique(out@),
            entries_map(out@) == analytics_map(rs.take(i as int)),
        decreases results.len() - i,
    {
        let ghost cur = rs.take(i + 1);
        assert(cur.drop_last() =~= rs.take(i as int));
        assert(cur.last() == results@[i as int]);
        let run = &results[i];
        assert(runs_fit(rs) ==> (match rs[i as int].standard {
            Some(s) => std_size(s@) <= u32::MAX,
            None => true,
        }));
        let entry = match &run.standard {
            Some(std_res) => StrategyAnalytics::Standard(build_standard(std_res.as_slice())),
            None => match &run.dpi {
                Some(dpi_res) => StrategyAnalytics::Dpi(build_dpi(dpi_res.as_slice())),
                None => {
                    i = i + 1;
                    continue;
                },
            },
        };
        assert(run_entry(*run) == Some(entry));
        match find_entry(&out, &run.strategy_name) {
            Some(idx) => {
                let ghost before = out@;
                let name = out[idx].0.clone();
                out.set(idx, (name, entry));
                proof {
                    lemma_entries_update(before, idx as int, entry);
                    assert(out@ =~= before.update(idx as int, (before[idx as int].0, entry)));
                }
            },
            None => {
                let ghost before = out@;
                out.push((run.strategy_name.clone(), entry));
                assert(out@.drop_last() =~= before);
                assert forall|a: int, b: int| 0 <= a < b < out@.len() implies (#[trigger] out@[a]).0@ != (#[trigger] out@[b]).0@ by {
                    if b == out@.len() - 1 {
                        assert(out@[a] == before[a]);
                    } else {
                        assert(out@[a] == before[a]);
                        assert(out@[b] == before[b]);
                    }
                }
            },
        }
        i = i + 1;
    }
    assert(rs.take(results.len() as int) =~= rs);
    out
}

/// `x` scores at least as well as `y`: more good outcomes, or as many and at
/// least as good a tie-breaker.
pub open spec fn at_least_as_good(x: StrategyAnalytics, y: StrategyAnalytics) -> bool {
    spec_ok_score(x) > spec_ok_score(y) || (spec_ok_score(x) == spec_ok_score(y) && spec_secondary_score(x)
        >= spec_secondary_score(y))
}

/// The name of a strategy with the most good outcomes, ties broken by the
/// secondary score; `None` when there are no entries.
pub fn find_best(analytics: &Analytics) -> (r: Option<String>)
    ensures
        r is None <==> analytics.len() == 0,
        r matches Some(name) ==> exists|i: int|
            0 <= i < analytics.len() && (#[trigger] analytics@[i]).0@ == name@ && forall|j: int|
                0 <= j < analytics.len() ==> at_least_as_good(analytics@[i].1, #[trigger] analytics@[j].1),
{
    if analytics.len() == 0 {
        return None;
    }
    let mut best: usize = 0;
    let mut i: usize = 1;
    while i < analytics.len()
        invariant
            1 <= i <= analytics.len(),
            best < i,
            forall|j: int| 0 <= j < i ==> at_least_as_good(analytics@[best as int].1, #[trigger] analytics@[j].1),
        decreases analytics.len() - i,
    {
        let a = &analytics[i].1;
        let b = &analytics[best].1;
        let (ao, bo) = (a.ok_score(), b.ok_score());
        if ao > bo || (ao == bo && a.secondary_score() >= b.secondary_score()) {
            best = i;
        }
        i = i + 1;
    }
    let name = analytics[best].0.clone();
    assert(analytics@[best as int].0@ == name@);
    Some(name)
}


/// The number of request outcomes of the URL targets.
pub open spec fn url_requests(rs: Seq<TargetResult>) -> nat
    decreases rs.len(),
{
    if rs.len() == 0 {
        0
    } else {
        url_requests(rs.drop_last()) + if rs.last().is_url { rs.last().http_tokens@.len() } else { 0 }
    }
}

/// Every outcome of a standard run is counted exactly once: the request
/// counts (`OK`, errors, `UNSUP`) add up to the requests of the URL targets,
/// and the ping counts to the number of targets.
pub proof fn law_standard_counts_every_outcome(rs: Seq<TargetResult>)
    ensures
        spec_standard(rs).0 + spec_standard(rs).1 + spec_standard(rs).2 == url_requests(rs),
        spec_standard(rs).3 + spec_standard(rs).4 == rs.len(),
    decreases rs.len(),
{
    if rs.len() > 0 {
        law_standard_counts_every_outcome(rs.drop_last());
        lemma_count_tokens_sum(rs.last().http_tokens@);
    }
}

/// Every probe of a DPI run is counted exactly once: the good, failed,
/// unsupported and likely-blocked counts add up to the number of probes.
pub proof fn law_dpi_counts_every_probe(rs: Seq<DpiTargetResult>)
    ensures
        spec_dpi(rs).0 + spec_dpi(rs).1 + spec_dpi(rs).2 + spec_dpi(rs).3 == dpi_size(rs),
{
    lemma_dpi_bound(rs);
}

/// The entry of a strategy in the analytics is that of its last run with
/// results: later runs of other strategies, and later runs without results,
/// leave it alone.
proof fn lemma_entry_of_last_run(rs: Seq<RunResult>, i: int)
    requires
        0 <= i < rs.len(),
        run_entry(rs[i]) is Some,
        forall|j: int| i < j < rs.len() && (#[trigger] rs[j]).strategy_name@ == rs[i].strategy_name@ ==> run_entry(rs[j]) is None,
    ensures
        analytics_map(rs).dom().contains(rs[i].strategy_name@),
        analytics_map(rs)[rs[i].strategy_name@] == run_entry(rs[i])->0,
    decreases rs.len(),
{
    let f = rs.drop_last();
    if i < rs.len() - 1 {
        assert forall|j: int| i < j < f.len() && (#[trigger] f[j]).strategy_name@ == f[i].strategy_name@ implies run_entry(f[j]) is None by {
            assert(f[j] == rs[j]);
        }
        lemma_entry_of_last_run(f, i);
        assert(f[i] == rs[i]);
        let last = rs[rs.len() - 1];
        if last.strategy_name@ == rs[i].strategy_name@ {
            assert(run_entry(last) is None);
        }
    }
}

/// A strategy's good-outcome score is counted from its last run with
/// results: the `OK` requests of that run's URL targets for a standard run,
/// its `OK` probes for a DPI run.
pub proof fn law_ok_score_of_last_run(rs: Seq<RunResult>, i: int)
    requires
        runs_fit(rs),
        0 <= i < rs.len(),
        rs[i].standard is Some || rs[i].dpi is Some,
        forall|j: int| i < j < rs.len() && (#[trigger] rs[j]).strategy_name@ == rs[i].strategy_name@
            ==> rs[j].standard is None && rs[j].dpi is None,
    ensures
        analytics_map(rs).dom().contains(rs[i].strategy_name@),
        spec_ok_score(analytics_map(rs)[rs[i].strategy_name@]) == match rs[i].standard {
            Some(s) => std_count(s@, 0),
            None => dpi_count(rs[i].dpi->0@, 0),
        },
{
    assert forall|j: int| i < j < rs.len() && (#[trigger] rs[j]).strategy_name@ == rs[i].strategy_name@ implies run_entry(rs[j]) is None by {}
    lemma_entry_of_last_run(rs, i);
    assert(runs_fit(rs) ==> (match rs[i].standard {
        Some(s) => std_size(s@) <= u32::MAX,
        None => true,
    }) && (match rs[i].dpi {
        Some(d) => dpi_size(d@) <= u32::MAX,
        None => true,
    }));
    match rs[i].standard {
        Some(s) => {
            lemma_std_bound(s@);
        },
        None => {
            lemma_dpi_bound(rs[i].dpi->0@);
        },
    }
}

/// How two standard runs rank: more `OK` requests first; with as many, more
/// answered pings. A strategy whose pings fail more often never wins a tie.
pub proof fn law_standard_rank_by_ok_then_pings(x: StandardAnalytics, y: StandardAnalytics)
    ensures
        at_least_as_good(StrategyAnalytics::Standard(x), StrategyAnalytics::Standard(y))
            <==> (x.ok > y.ok || (x.ok == y.ok && x.ping_ok >= y.ping_ok)),
{
}

/// How two DPI runs rank: more `OK` probes first; with as many, fewer
/// likely-blocked probes (good probes less blocked ones, at least zero).
pub proof fn law_dpi_rank_by_ok_then_blocked(x: DpiAnalytics, y: DpiAnalytics)
    ensures
        at_least_as_good(StrategyAnalytics::Dpi(x), StrategyAnalytics::Dpi(y)) <==> (x.ok > y.ok || (x.ok == y.ok && (
            x.likely_blocked <= y.likely_blocked || y.likely_blocked >= y.ok))),
{
}

/// The best of standard runs: no other run has more `OK` requests, and none
/// with as many has more answered pings.
pub proof fn law_best_standard_run(a: Seq<(String, StrategyAnalytics)>, i: int)
    requires
        0 <= i < a.len(),
        forall|j: int| 0 <= j < a.len() ==> at_least_as_good(a[i].1, #[trigger] a[j].1),
        forall|j: int| 0 <= j < a.len() ==> (#[trigger] a[j]).1 is Standard,
    ensures
        forall|j: int| 0 <= j < a.len() ==> (#[trigger] a[j]).1->Standard_0.ok <= a[i].1->Standard_0.ok,
        forall|j: int| 0 <= j < a.len() && (#[trigger] a[j]).1->Standard_0.ok == a[i].1->Standard_0.ok
            ==> a[j].1->Standard_0.ping_ok <= a[i].1->Standard_0.ping_ok,
{
    assert forall|j: int| 0 <= j < a.len() implies (#[trigger] a[j]).1->Standard_0.ok <= a[i].1->Standard_0.ok by {
        assert(at_least_as_good(a[i].1, a[j].1));
    }
    assert forall|j: int| 0 <= j < a.len() && (#[trigger] a[j]).1->Standard_0.ok == a[i].1->Standard_0.ok
        implies a[j].1->Standard_0.ping_ok <= a[i].1->Standard_0.ping_ok by {
        assert(at_least_as_good(a[i].1, a[j].1));
    }
}

} // verus!
