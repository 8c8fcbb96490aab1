//! The DPI checks: suite entries, the per-probe results, and how a failed
//! probe is classified.
use vstd::prelude::*;

use crate::tester::checker::mentions;
use crate::text::{chars_of, contains, contains_chars, lower, lower_vec};

verus! {

/// One host of the DPI suite.
#[derive(Debug, Clone)]
pub struct DpiSuiteEntry {
    pub id: String,
    pub provider: String,
    pub country: String,
    pub host: String,
}

/// One probe of a host (`HTTP`, `TLS1.2`, `TLS1.3`): its label, the response
/// code (`ERR` when there was none) and its status. The transferred kilobytes
/// and the duration are floating-point measurements kept by the prober.
#[derive(Debug, Clone)]
pub struct DpiTestLine {
    pub test_label: String,
    pub code: String,
    pub status: String,
}

/// The probes of one host.
#[derive(Debug, Clone)]
pub struct DpiTargetResult {
    pub target_id: String,
    pub provider: String,
    pub country: String,
    pub lines: Vec<DpiTestLine>,
    pub has_warning: bool,
}

pub open spec fn unsupported_phrases() -> Seq<Seq<char>> {
    seq!["no supported versions"@, "protocol version"@, "handshake"@, "unsupported protocol"@]
}

pub open spec fn timeout_phrases() -> Seq<Seq<char>> {
    seq!["timed out"@, "timeout"@]
}

/// The status of a probe whose request failed, from the error's text:
/// `UNSUPPORTED` for protocol-version problems, `LIKELY_BLOCKED` for a
/// timeout, `FAIL` otherwise.
pub open spec fn spec_probe_error_status(msg: Seq<char>) -> Seq<char> {
    let m = lower(msg);
    if mentions(m, unsupported_phrases()) {
        "UNSUPPORTED"@
    } else if mentions(m, timeout_phrases()) {
        "LIKELY_BLOCKED"@
    } else {
        "FAIL"@
    }
}

fn any_of(m: &[char], phrases: &Vec<&str>) -> (r: bool)
    ensures
        r == mentions(m@, phrases@.map_values(|p: &str| p@)),
{
    let ghost ps = phrases@.map_values(|p: &str| p@);
    let mut i: usize = 0;
    while i < phrases.len()
        invariant
            i <= phrases.len(),
            ps == phrases@.map_values(|p: &str| p@),
            forall|j: int| 0 <= j < i ==> !crate::text::contains(m@, #[trigger] ps[j]),
        decreases phrases.len() - i,
    {
        if contains_chars(m, &chars_of(phrases[i])) {
            assert(crate::text::contains(m@, ps[i as int]));
            return true;
        }
        i = i + 1;
    }
    false
}

/// Classifies a failed probe by the text of its error.
pub fn probe_error_status(msg: &str) -> (r: String)
    ensures
        r@ == spec_probe_error_status(msg@),
{
    let m = lower_vec(&chars_of(msg));
    let unsup: Vec<&str> = vec!["no supported versions", "protocol version", "handshake", "unsupported protocol"];
    assert(unsup@.map_values(|p: &str| p@) =~= unsupported_phrases());
    if any_of(&m, &unsup) {
        return String::from_str("UNSUPPORTED");
    }
    let tmo: Vec<&str> = vec!["timed out", "timeout"];
    assert(tmo@.map_values(|p: &str| p@) =~= timeout_phrases());
    if any_of(&m, &tmo) {
        return String::from_str("LIKELY_BLOCKED");
    }
    String::from_str("FAIL")
}

/// Whether any probe of a host looks blocked.
pub fn any_likely_blocked(lines: &Vec<DpiTestLine>) -> (r: bool)
    ensures
        r == exists|i: int| 0 <= i < lines@.len() && (#[trigger] lines@[i]).status@ == "LIKELY_BLOCKED"@,
{
    let mut i: usize = 0;
    while i < lines.len()
        invariant
            i <= lines.len(),
            forall|j: int| 0 <= j < i ==> (#[trigger] lines@[j]).status@ != "LIKELY_BLOCKED"@,
        decreases lines.len() - i,
    {
        if crate::text::eq_str(&chars_of(lines[i].status.as_str()), "LIKELY_BLOCKED") {
            return true;
        }
        i = i + 1;
    }
    false
}

/// The pseudo-random payload of a probe: `n` bytes of a 64-bit linear
/// congruential generator started at `seed`, each the bits 33..40 of the state.
pub open spec fn lcg_next(state: u64) -> u64 {
    vstd::wrapping::u64_specs::wrapping_add(
        vstd::wrapping::u64_specs::wrapping_mul(state, 6364136223846793005u64),
        1442695040888963407u64,
    )
}

pub open spec fn lcg_bytes(seed: u64, n: nat) -> Seq<u8>
    decreases n,
{
    if n == 0 {
        Seq::empty()
    } else {
        let prev = lcg_bytes(seed, (n - 1) as nat);
        prev.push((lcg_state(seed, n) >> 33u64) as u8)
    }
}

/// The generator's state after `n` steps from `seed`.
pub open spec fn lcg_state(seed: u64, n: nat) -> u64
    decreases n,
{
    if n == 0 { seed } else { lcg_next(lcg_state(seed, (n - 1) as nat)) }
}

/// `n` pseudo-random bytes from `seed` (the prober seeds it with the clock).
pub fn random_bytes(seed: u64, n: usize) -> (r: Vec<u8>)
    ensures
        r@ == lcg_bytes(seed, n as nat),
{
    let mut state: u64 = seed;
    let mut r: Vec<u8> = Vec::new();
    let mut i: usize = 0;
    while i < n
        invariant
            i <= n,
            state == lcg_state(seed, i as nat),
            r@ == lcg_bytes(seed, i as nat),
        decreases n - i,
    {
        state = state.wrapping_mul(6_364_136_223_846_793_005).wrapping_add(1_442_695_040_888_963_407);
        i = i + 1;
        r.push((state >> 33) as u8);
    }
    r
}


/// The status of a probe that got a response: `LIKELY_BLOCKED` when a payload
/// was sent, nothing came back, and the whole timeout (ten seconds) passed
/// (the "frozen at 16-20 KB" pattern); `OK` otherwise.
pub fn probe_response_status(up_bytes: usize, body_len: usize, elapsed_secs: u64) -> (r: String)
    ensures
        r@ == if up_bytes > 0 && body_len == 0 && elapsed_secs >= 10 { "LIKELY_BLOCKED"@ } else { "OK"@ },
{
    if up_bytes > 0 && body_len == 0 && elapsed_secs >= 10 {
        String::from_str("LIKELY_BLOCKED")
    } else {
        String::from_str("OK")
    }
}

/// The result of one host of the suite: its id, provider and country, its
/// probes, and whether any of them looks blocked.
pub fn dpi_target_result(entry: DpiSuiteEntry, lines: Vec<DpiTestLine>) -> (r: DpiTargetResult)
    ensures
        r.target_id@ == entry.id@,
        r.provider@ == entry.provider@,
        r.country@ == entry.country@,
        r.lines@ == lines@,
        r.has_warning == exists|i: int| 0 <= i < lines@.len() && (#[trigger] lines@[i]).status@ == "LIKELY_BLOCKED"@,
{
    let has_warning = any_likely_blocked(&lines);
    DpiTargetResult { target_id: entry.id, provider: entry.provider, country: entry.country, lines, has_warning }
}

/// How a failed probe is classed from its error text, ASCII case ignored:
/// a TLS handshake or protocol-version problem makes it `UNSUPPORTED`;
/// otherwise a timeout makes it `LIKELY_BLOCKED` (the connection hangs);
/// anything else is `FAIL`.
pub proof fn law_probe_error_classes(msg: Seq<char>)
    ensures
        contains(lower(msg), "handshake"@) || contains(lower(msg), "protocol version"@) || contains(lower(msg), "no supported versions"@)
            || contains(lower(msg), "unsupported protocol"@) ==> spec_probe_error_status(msg) == "UNSUPPORTED"@,
        !(contains(lower(msg), "handshake"@) || contains(lower(msg), "protocol version"@) || contains(lower(msg), "no supported versions"@)
            || contains(lower(msg), "unsupported protocol"@)) && (contains(lower(msg), "timed out"@) || contains(lower(msg), "timeout"@))
            ==> spec_probe_error_status(msg) == "LIKELY_BLOCKED"@,
        !(contains(lower(msg), "handshake"@) || contains(lower(msg), "protocol version"@) || contains(lower(msg), "no supported versions"@)
            || contains(lower(msg), "unsupported protocol"@) || contains(lower(msg), "timed out"@) || contains(lower(msg), "timeout"@))
            ==> spec_probe_error_status(msg) == "FAIL"@,
{
    let m = lower(msg);
    let un = unsupported_phrases();
    let to = timeout_phrases();
    assert(un[0] == "no supported versions"@ && un[1] == "protocol version"@ && un[2] == "handshake"@ && un[3] == "unsupported protocol"@);
    assert(to[0] == "timed out"@ && to[1] == "timeout"@);
}

} // verus!
