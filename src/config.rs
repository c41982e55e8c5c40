use vstd::prelude::*;
use vstd::string::*;
use crate::numtext::str_eq;

verus! {

/// Whether violations are only reported or also acted upon.
#[derive(Clone, Copy, Debug, PartialEq, Eq, Structural)]
pub enum EnforcementMode {
    Monitor,
    Enforce,
}

#[derive(Clone, Copy, Debug, PartialEq, Eq, Structural)]
pub enum LogLevel {
    Error,
    Warn,
    Info,
    Debug,
    Trace,
}

/// Settings of the orchestrator bridge.
#[derive(Clone, Debug, Default)]
pub struct OrchestratorConfig {
    pub enabled: bool,
    pub token: Option<String>,
    pub allow_public: bool,
}

/// One configured field-bus driver.
#[derive(Debug, Default)]
pub struct DriverConfig {
    pub protocol: String,
    pub id: String,
    pub target: String,
    pub params: Vec<(String, String)>,
}

/// The code of `c` with an ASCII capital lowered.
pub open spec fn ascii_lower(c: char) -> u32 {
    if 'A' <= c && c <= 'Z' { ((c as u32) + 32) as u32 } else { c as u32 }
}

/// Whether `a` equals `b` once ASCII letters of `a` are lowered.
pub open spec fn lower_eq(a: Seq<char>, b: Seq<char>) -> bool {
    a.len() == b.len() && forall|i: int| 0 <= i < a.len() ==> ascii_lower(#[trigger] a[i]) == b[i] as u32
}

fn lower_char(c: char) -> (r: u32)
    ensures
        r == ascii_lower(c),
{
    if 'A' <= c && c <= 'Z' { c as u32 + 32 } else { c as u32 }
}

/// Whether `a`, with its ASCII letters lowered, equals `b`.
pub fn lower_equals(a: &str, b: &str) -> (r: bool)
    ensures
        r == lower_eq(a@, b@),
{
    let n = a.unicode_len();
    if n != b.unicode_len() {
        return false;
    }
    let mut i: usize = 0;
    while i < n
        invariant
            n == a@.len(),
            n == b@.len(),
            i <= n,
            forall|k: int| 0 <= k < i ==> ascii_lower(#[trigger] a@[k]) == b@[k] as u32,
        decreases n - i,
    {
        if lower_char(a.get_char(i)) != b.get_char(i) as u32 {
            return false;
        }
        i = i + 1;
    }
    true
}

/// The log level that a name gives, in any letter case; `warning` is taken for `warn`.
pub open spec fn log_level_of(s: Seq<char>) -> Option<LogLevel> {
    if lower_eq(s, "error"@) {
        Some(LogLevel::Error)
    } else if lower_eq(s, "warn"@) || lower_eq(s, "warning"@) {
        Some(LogLevel::Warn)
    } else if lower_eq(s, "info"@) {
        Some(LogLevel::Info)
    } else if lower_eq(s, "debug"@) {
        Some(LogLevel::Debug)
    } else if lower_eq(s, "trace"@) {
        Some(LogLevel::Trace)
    } else {
        None
    }
}

/// Parses an optional log-level name; an unknown name is an error that names it.
pub fn parse_log_level(input: Option<&str>) -> (r: Result<Option<LogLevel>, String>)
    ensures
        match input {
            None => r == Ok::<Option<LogLevel>, String>(None),
            Some(s) => match log_level_of(s@) {
                Some(l) => r == Ok::<Option<LogLevel>, String>(Some(l)),
                None => r matches Err(m) && m@ == "unknown log level "@ + s@,
            },
        },
{
    match input {
        None => Ok(None),
        Some(level) => {
            if lower_equals(level, "error") {
                Ok(Some(LogLevel::Error))
            } else if lower_equals(level, "warn") || lower_equals(level, "warning") {
                Ok(Some(LogLevel::Warn))
            } else if lower_equals(level, "info") {
                Ok(Some(LogLevel::Info))
            } else if lower_equals(level, "debug") {
                Ok(Some(LogLevel::Debug))
            } else if lower_equals(level, "trace") {
                Ok(Some(LogLevel::Trace))
            } else {
                let mut m = String::from_str("unknown log level ");
                m.append(level);
                Err(m)
            }
        },
    }
}

/// Whether a request to the orchestrator endpoints is let through: with a token configured,
/// exactly when the request presents that token; without one, when the agent listens on
/// loopback only or public access was opened explicitly.
pub open spec fn access_allowed(
    token: Option<Seq<char>>,
    allow_public: bool,
    listen_is_loopback: bool,
    presented: Option<Seq<char>>,
) -> bool {
    match token {
        Some(t) => presented == Some(t),
        None => listen_is_loopback || allow_public,
    }
}

impl OrchestratorConfig {
    pub fn allows_request(&self, listen_is_loopback: bool, presented: Option<&str>) -> (r: bool)
        ensures
            r == access_allowed(
                match self.token { Some(t) => Some(t@), None => None },
                self.allow_public,
                listen_is_loopback,
                match presented { Some(p) => Some(p@), None => None },
            ),
    {
        match &self.token {
            Some(t) => match presented {
                Some(p) => str_eq(t.as_str(), p),
                None => false,
            },
            None => listen_is_loopback || self.allow_public,
        }
    }
}

/// The status code of the liveness endpoint: 200 when the last tick was healthy, 503 otherwise.
pub fn healthz_status(healthy: bool) -> (r: u16)
    ensures
        r == if healthy { 200u16 } else { 503u16 },
{
    if healthy { 200 } else { 503 }
}

} // verus!
