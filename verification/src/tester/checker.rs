//! Results of the HTTP/TLS/ping checks of one target, and how a failed
//! request is classified.
use vstd::prelude::*;

use crate::config_files::Target;
use crate::text::{append_chars, chars_of, contains, contains_chars, lower, lower_vec, string_from, to_string};

verus! {

/// The outcome of one HTTP variant (`HTTP`, `TLS1.2`, `TLS1.3`) of a target.
#[derive(Debug, Clone)]
pub struct HttpToken {
    pub label: String,
    pub status: String,
}

impl HttpToken {
    /// `label:status`.
    pub fn display(&self) -> (r: String)
        ensures
            r@ == self.label@ + seq![':'] + self.status@,
    {
        let mut v = chars_of(self.label.as_str());
        v.push(':');
        append_chars(&mut v, &chars_of(self.status.as_str()));
        string_from(&v)
    }
}

/// The results of the checks of one target.
#[derive(Debug, Clone)]
pub struct TargetResult {
    pub name: String,
    pub http_tokens: Vec<HttpToken>,
    pub ping_ms: Option<u64>,
    pub is_url: bool,
}

/// Whether the lower-case message mentions any of the given phrases.
pub open spec fn mentions(msg: Seq<char>, phrases: Seq<Seq<char>>) -> bool {
    exists|i: int| 0 <= i < phrases.len() && contains(msg, #[trigger] phrases[i])
}

pub open spec fn ssl_phrases() -> Seq<Seq<char>> {
    seq!["certificate"@, "ssl"@, "self-signed"@, "unknown cert"@]
}

pub open spec fn unsup_phrases() -> Seq<Seq<char>> {
    seq!["no supported versions"@, "protocol version"@, "alert handshake failure"@, "handshake"@, "unsupported protocol"@]
}

/// The status of a failed request from its error message: `SSL` for
/// certificate problems, `UNSUP` for protocol-version problems, `ERROR` otherwise.
pub open spec fn spec_classify(msg: Seq<char>) -> Seq<char> {
    let m = lower(msg);
    if mentions(m, ssl_phrases()) {
        "SSL"@
    } else if mentions(m, unsup_phrases()) {
        "UNSUP"@
    } else {
        "ERROR"@
    }
}

/// Whether `m` contains any of the phrases.
fn mentions_exec(m: &[char], phrases: &Vec<&str>) -> (r: bool)
    ensures
        r == mentions(m@, phrases@.map_values(|p: &str| p@)),
{
    let ghost ps = phrases@.map_values(|p: &str| p@);
    let mut i: usize = 0;
    while i < phrases.len()
        invariant
            i <= phrases.len(),
            ps == phrases@.map_values(|p: &str| p@),
            forall|j: int| 0 <= j < i ==> !contains(m@, #[trigger] ps[j]),
        decreases phrases.len() - i,
    {
        if contains_chars(m, &chars_of(phrases[i])) {
            assert(contains(m@, ps[i as int]));
            return true;
        }
        i = i + 1;
    }
    false
}

/// Classifies a failed request by the text of its error.
pub fn classify_error_message(msg: &str) -> (r: String)
    ensures
        r@ == spec_classify(msg@),
{
    let m = lower_vec(&chars_of(msg));
    let ssl: Vec<&str> = vec!["certificate", "ssl", "self-signed", "unknown cert"];
    assert(ssl@.map_values(|p: &str| p@) =~= ssl_phrases());
    if mentions_exec(&m, &ssl) {
        return String::from_str("SSL");
    }
    let unsup: Vec<&str> = vec!["no supported versions", "protocol version", "alert handshake failure", "handshake", "unsupported protocol"];
    assert(unsup@.map_values(|p: &str| p@) =~= unsup_phrases());
    if mentions_exec(&m, &unsup) {
        return String::from_str("UNSUP");
    }
    String::from_str("ERROR")
}

/// The three tokens recorded for a target whose check task failed.
pub fn failed_task_tokens() -> (r: Vec<HttpToken>)
    ensures
        r@.len() == 3,
        r@[0].label@ == "HTTP"@ && r@[0].status@ == "ERROR"@,
        r@[1].label@ == "TLS1.2"@ && r@[1].status@ == "ERROR"@,
        r@[2].label@ == "TLS1.3"@ && r@[2].status@ == "ERROR"@,
{
    vec![
        HttpToken { label: String::from_str("HTTP"), status: String::from_str("ERROR") },
        HttpToken { label: String::from_str("TLS1.2"), status: String::from_str("ERROR") },
        HttpToken { label: String::from_str("TLS1.3"), status: String::from_str("ERROR") },
    ]
}

/// The result recorded for a target whose check task failed: the target's
/// name, the three error tokens, no ping, counted as a URL target.
pub fn failed_target_result(name: String) -> (r: TargetResult)
    ensures
        r.name@ == name@,
        r.http_tokens@.len() == 3,
        r.http_tokens@[0].label@ == "HTTP"@ && r.http_tokens@[0].status@ == "ERROR"@,
        r.http_tokens@[1].label@ == "TLS1.2"@ && r.http_tokens@[1].status@ == "ERROR"@,
        r.http_tokens@[2].label@ == "TLS1.3"@ && r.http_tokens@[2].status@ == "ERROR"@,
        r.ping_ms is None,
        r.is_url,
{
    TargetResult { name, http_tokens: failed_task_tokens(), ping_ms: None, is_url: true }
}

/// How one request of a target went.
pub enum HttpOutcome {
    /// The client for this TLS variant could not be built.
    NoClient,
    /// The request got a response.
    Answered,
    /// The request failed with this error text.
    Failed(String),
}

/// The token of one request: `ERROR` without a client, `OK` on a response,
/// else the class of the error.
pub fn http_token(label: &str, outcome: HttpOutcome) -> (r: HttpToken)
    ensures
        r.label@ == label@,
        r.status@ == match outcome {
            HttpOutcome::NoClient => "ERROR"@,
            HttpOutcome::Answered => "OK"@,
            HttpOutcome::Failed(e) => spec_classify(e@),
        },
{
    let status = match &outcome {
        HttpOutcome::NoClient => to_string("ERROR"),
        HttpOutcome::Answered => to_string("OK"),
        HttpOutcome::Failed(e) => classify_error_message(e.as_str()),
    };
    HttpToken { label: to_string(label), status }
}

/// The result of one target: its name, the request tokens when it has a URL
/// (none otherwise), and its ping.
pub fn target_result(target: &Target, http_tokens: Vec<HttpToken>, ping_ms: Option<u64>) -> (r: TargetResult)
    ensures
        r.name@ == target.name@,
        r.is_url == target.url is Some,
        r.http_tokens@ == if target.url is Some { http_tokens@ } else { Seq::empty() },
        r.ping_ms == ping_ms,
{
    let tokens = if target.url.is_some() { http_tokens } else { Vec::new() };
    TargetResult { name: target.name.clone(), http_tokens: tokens, ping_ms, is_url: target.url.is_some() }
}

/// The ping of a host reached by name: the fastest of the successful tries.
pub fn fastest(times: &[u64]) -> (r: Option<u64>)
    ensures
        times.len() == 0 <==> r is None,
        r matches Some(t) ==> (exists|i: int| 0 <= i < times.len() && times@[i] == t) && forall|i: int|
            0 <= i < times.len() ==> t <= #[trigger] times@[i],
{
    if times.len() == 0 {
        return None;
    }
    let mut best = times[0];
    let mut i: usize = 1;
    while i < times.len()
        invariant
            1 <= i <= times.len(),
            exists|j: int| 0 <= j < i && times@[j] == best,
            forall|j: int| 0 <= j < i ==> best <= #[trigger] times@[j],
        decreases times.len() - i,
    {
        if times[i] < best {
            best = times[i];
        }
        i = i + 1;
    }
    Some(best)
}

/// How a failed request is classed from its error text, ASCII case ignored:
/// any mention of a certificate or SSL problem makes it `SSL`; otherwise a
/// TLS handshake or protocol-version problem makes it `UNSUP`; anything else
/// is `ERROR`. Texts equal up to ASCII case class alike.
pub proof fn law_request_error_classes(msg: Seq<char>, other: Seq<char>)
    ensures
        contains(lower(msg), "certificate"@) || contains(lower(msg), "ssl"@) || contains(lower(msg), "self-signed"@)
            || contains(lower(msg), "unknown cert"@) ==> spec_classify(msg) == "SSL"@,
        !(contains(lower(msg), "certificate"@) || contains(lower(msg), "ssl"@) || contains(lower(msg), "self-signed"@)
            || contains(lower(msg), "unknown cert"@)) && (contains(lower(msg), "handshake"@) || contains(lower(msg), "protocol version"@)
            || contains(lower(msg), "no supported versions"@) || contains(lower(msg), "unsupported protocol"@))
            ==> spec_classify(msg) == "UNSUP"@,
        !(contains(lower(msg), "certificate"@) || contains(lower(msg), "ssl"@) || contains(lower(msg), "self-signed"@)
            || contains(lower(msg), "unknown cert"@) || contains(lower(msg), "handshake"@) || contains(lower(msg), "protocol version"@)
            || contains(lower(msg), "no supported versions"@) || contains(lower(msg), "unsupported protocol"@))
            ==> spec_classify(msg) == "ERROR"@,
        lower(msg) == lower(other) ==> spec_classify(msg) == spec_classify(other),
{
    let m = lower(msg);
    let ssl = ssl_phrases();
    let un = unsup_phrases();
    assert(ssl[0] == "certificate"@ && ssl[1] == "ssl"@ && ssl[2] == "self-signed"@ && ssl[3] == "unknown cert"@);
    assert(un[0] == "no supported versions"@ && un[1] == "protocol version"@ && un[2] == "alert handshake failure"@
        && un[3] == "handshake"@ && un[4] == "unsupported protocol"@);
    if mentions(m, un) {
        let i = choose|i: int| 0 <= i < un.len() && contains(m, #[trigger] un[i]);
        if i == 2 {
            // "alert handshake failure" holds "handshake"
            let j = choose|j: int| 0 <= j && j + un[2].len() <= m.len() && #[trigger] m.subrange(j, j + un[2].len()) == un[2];
            reveal_strlit("alert handshake failure");
            reveal_strlit("handshake");
            let h = "handshake"@;
            assert(un[2].len() == 23 && h.len() == 9);
            assert(m.subrange(j + 6, j + 6 + h.len()) =~= m.subrange(j, j + 23).subrange(6, 15));
            assert(m.subrange(j, j + 23).subrange(6, 15) =~= h);
            assert(contains(m, h));
        }
    }
    if contains(m, "handshake"@) {
        assert(contains(m, un[3]));
    }
}

} // verus!
