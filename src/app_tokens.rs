use vstd::prelude::*;
use vstd::string::*;
use crate::client::has_prefix;
use crate::condition::{lemma_unsigned_value_bound, unsigned_at, unsigned_at_exec, MAX_THRESHOLD_MILLI};
use crate::numtext::str_eq;

verus! {

/// Whitespace inside a line of a metrics document.
pub open spec fn is_blank(c: char) -> bool {
    c == ' ' || c == '\t' || c == '\r'
}

/// The end of the line that starts at `i`: the next newline, or the end of the text.
pub open spec fn line_end(s: Seq<char>, i: int) -> int
    decreases s.len() - i,
{
    if i < 0 || i >= s.len() || s[i] == '\n' { i } else { line_end(s, i + 1) }
}

/// The end of `line[0..e]` once trailing blanks are dropped.
pub open spec fn trimmed_end(line: Seq<char>, e: int) -> int
    decreases e,
{
    if e > 0 && e <= line.len() && is_blank(line[e - 1]) { trimmed_end(line, e - 1) } else { e }
}

/// Start of the run of non-blank characters that ends at `e`.
pub open spec fn token_start(line: Seq<char>, e: int) -> int
    decreases e,
{
    if e > 0 && e <= line.len() && !is_blank(line[e - 1]) { token_start(line, e - 1) } else { e }
}

/// The last blank-separated word of a line.
pub open spec fn last_word(line: Seq<char>) -> Seq<char> {
    let e = trimmed_end(line, line.len() as int);
    line.subrange(token_start(line, e), e)
}

/// A token count written as a plain decimal (at most three decimals), in thousandths.
pub open spec fn count_value(w: Seq<char>) -> Option<nat> {
    match unsigned_at(w, 0) {
        Some((v, e)) => if e == w.len() { Some(v as nat) } else { None },
        None => None,
    }
}

/// Whether a line carries one of the token counters that are summed.
pub open spec fn counted_line(line: Seq<char>) -> bool {
    has_prefix(line, "vllm:generation_tokens_total"@) || has_prefix(line, "vllm:prompt_tokens_total"@)
        || has_prefix(line, "tgi_generated_tokens"@) || has_prefix(line, "model_tokens_total"@)
}

/// The count a line contributes, if it contributes one: comments and other series do not.
pub open spec fn line_count(line: Seq<char>) -> Option<nat> {
    if line.len() > 0 && line[0] == '#' {
        None
    } else if counted_line(line) {
        count_value(last_word(line))
    } else {
        None
    }
}

/// The sum of the counts on the lines from position `i` on, and whether any line had one.
pub open spec fn tokens_from(s: Seq<char>, i: int) -> (nat, bool)
    decreases s.len() - i,
{
    if i < 0 || i >= s.len() {
        (0, false)
    } else {
        let e = line_end(s, i);
        let rest = if i <= e < s.len() { tokens_from(s, e + 1) } else { (0nat, false) };
        match line_count(s.subrange(i, e)) {
            Some(v) => ((rest.0 + v) as nat, true),
            None => rest,
        }
    }
}

proof fn lemma_line_end_bounds(s: Seq<char>, i: int)
    requires
        0 <= i <= s.len(),
    ensures
        i <= line_end(s, i) <= s.len(),
        forall|k: int| i <= k < line_end(s, i) ==> s[k] != '\n',
    decreases s.len() - i,
{
    if i < s.len() && s[i] != '\n' {
        lemma_line_end_bounds(s, i + 1);
    }
}

proof fn lemma_tokens_bound(s: Seq<char>, i: int)
    requires
        0 <= i,
    ensures
        tokens_from(s, i).0 <= (if s.len() > i { (s.len() - i) as nat } else { 0nat }) * (
        MAX_THRESHOLD_MILLI + 1000),
    decreases s.len() - i,
{
    if i < s.len() {
        lemma_line_end_bounds(s, i);
        let e = line_end(s, i);
        if e < s.len() {
            lemma_tokens_bound(s, e + 1);
        }
        let line = s.subrange(i, e);
        if let Some(v) = line_count(line) {
            lemma_unsigned_value_bound(last_word(line), 0);
        }
        let a: nat = if s.len() > e + 1 { (s.len() - (e + 1)) as nat } else { 0nat };
        let b: nat = (s.len() - i) as nat;
        assert(a + 1 <= b);
        assert((a + 1) * (MAX_THRESHOLD_MILLI + 1000) <= b * (MAX_THRESHOLD_MILLI + 1000)) by (nonlinear_arith)
            requires a + 1 <= b;
    }
}

pub(crate) fn line_end_exec(s: &str, n: usize, i: usize) -> (r: usize)
    requires
        n == s@.len(),
        i <= n,
    ensures
        r == line_end(s@, i as int),
        i <= r <= n,
{
    let mut j = i;
    while j < n && s.get_char(j) != '\n'
        invariant
            n == s@.len(),
            i <= j <= n,
            line_end(s@, j as int) == line_end(s@, i as int),
        decreases n - j,
    {
        j = j + 1;
    }
    j
}

fn starts_with(s: &str, p: &str) -> (r: bool)
    ensures
        r == has_prefix(s@, p@),
{
    let n = s.unicode_len();
    let m = p.unicode_len();
    if n < m {
        return false;
    }
    str_eq(s.substring_char(0, m), p)
}

fn last_word_exec(line: &str) -> (r: &str)
    ensures
        r@ == last_word(line@),
{
    let n = line.unicode_len();
    let mut e = n;
    while e > 0 && (line.get_char(e - 1) == ' ' || line.get_char(e - 1) == '\t' || line.get_char(e - 1) == '\r')
        invariant
            n == line@.len(),
            e <= n,
            trimmed_end(line@, e as int) == trimmed_end(line@, n as int),
        decreases e,
    {
        e = e - 1;
    }
    let mut b = e;
    while b > 0 && !(line.get_char(b - 1) == ' ' || line.get_char(b - 1) == '\t' || line.get_char(b - 1) == '\r')
        invariant
            n == line@.len(),
            b <= e <= n,
            token_start(line@, b as int) == token_start(line@, e as int),
        decreases b,
    {
        b = b - 1;
    }
    line.substring_char(b, e)
}

fn line_count_exec(line: &str) -> (r: Option<u64>)
    ensures
        match r {
            Some(v) => line_count(line@) == Some(v as nat) && v <= MAX_THRESHOLD_MILLI + 1000,
            None => line_count(line@) is None,
        },
{
    let n = line.unicode_len();
    if n > 0 && line.get_char(0) == '#' {
        return None;
    }
    if !(starts_with(line, "vllm:generation_tokens_total") || starts_with(line, "vllm:prompt_tokens_total")
        || starts_with(line, "tgi_generated_tokens") || starts_with(line, "model_tokens_total")) {
        return None;
    }
    let w = last_word_exec(line);
    let m = w.unicode_len();
    match unsigned_at_exec(w, m, 0) {
        Some((v, e)) => if e == m { Some(v) } else { None },
        None => None,
    }
}

/// Sums the token counters of a metrics document, in thousandths of a token; `None` where
/// no line carries one.
pub fn parse_tokens(body: &str) -> (r: Option<u128>)
    ensures
        r == (if tokens_from(body@, 0).1 { Some(tokens_from(body@, 0).0 as u128) } else { None::<u128> }),
{
    let n = body.unicode_len();
    let ghost s = body@;
    let mut i: usize = 0;
    let mut lines_total: u128 = 0;
    let mut found = false;
    proof {
        lemma_tokens_bound(s, 0);
        assert((s.len() as nat) * (MAX_THRESHOLD_MILLI + 1000) < u128::MAX) by (nonlinear_arith)
            requires s.len() <= u64::MAX;
    }
    while i < n
        invariant
            n == s.len(),
            s == body@,
            i <= n,
            tokens_from(s, 0).0 == lines_total + tokens_from(s, i as int).0,
            tokens_from(s, 0).1 == (found || tokens_from(s, i as int).1),
            tokens_from(s, 0).0 <= (s.len() as nat) * (MAX_THRESHOLD_MILLI + 1000),
            (s.len() as nat) * (MAX_THRESHOLD_MILLI + 1000) < u128::MAX,
        decreases n - i,
    {
        let e = line_end_exec(body, n, i);
        proof { lemma_line_end_bounds(s, i as int); }
        let line = body.substring_char(i, e);
        match line_count_exec(line) {
            Some(v) => {
                assert(lines_total + v <= tokens_from(s, 0).0);
                lines_total = lines_total + v as u128;
                found = true;
            },
            None => {},
        }
        if e >= n {
            i = n;
        } else {
            i = e + 1;
        }
    }
    assert(tokens_from(s, n as int) == (0nat, false));
    if found { Some(lines_total) } else { None }
}

/// Tokens per second in thousandths: the rise of the counter (thousandths of a token) over
/// `dt_ms` milliseconds, saturated.
pub open spec fn token_rate_spec(prev: u128, cur: u128, dt_ms: u64) -> nat {
    let r = ((cur - prev) * 1000) / (dt_ms as int);
    if r > u128::MAX { u128::MAX as nat } else { r as nat }
}

/// Derives a token rate from successive readings of the token counters.
#[derive(Clone, Copy, Debug, PartialEq, Eq, Structural)]
pub struct TokenRateTracker {
    pub last_tokens: Option<u128>,
    pub last_ms: Option<u64>,
}

impl TokenRateTracker {
    pub fn new() -> (r: Self)
        ensures
            r.last_tokens is None,
            r.last_ms is None,
    {
        TokenRateTracker { last_tokens: None, last_ms: None }
    }

    /// Takes a reading at `now_ms` and returns the rate since the previous one; none on the
    /// first reading, when no time passed, or when the counter went back.
    pub fn observe(&mut self, tokens_milli: u128, now_ms: u64) -> (r: Option<u128>)
        ensures
            final(self).last_tokens == Some(tokens_milli),
            final(self).last_ms == Some(now_ms),
            match (old(self).last_tokens, old(self).last_ms) {
                (Some(p), Some(t)) => if now_ms > t && tokens_milli >= p {
                    r == Some(token_rate_spec(p, tokens_milli, (now_ms - t) as u64) as u128)
                } else {
                    r is None
                },
                _ => r is None,
            },
    {
        let r = match (self.last_tokens, self.last_ms) {
            (Some(p), Some(t)) => if now_ms > t && tokens_milli >= p {
                let dt = (now_ms - t) as u128;
                let diff = tokens_milli - p;
                let whole = diff / dt;
                let part = diff % dt;
                proof {
                    assert(diff == whole * dt + part) by (nonlinear_arith)
                        requires whole == diff / dt, part == diff % dt, dt > 0;
                    assert(part * 1000 < dt * 1000) by (nonlinear_arith) requires part < dt;
                    assert((diff * 1000) / (dt as int) == whole * 1000 + (part * 1000) / (dt as int)) by (nonlinear_arith)
                        requires diff == whole * dt + part, 0 <= part < dt, dt > 0;
                }
                assert((part * 1000) / (dt as int) < 1000) by (nonlinear_arith) requires part < dt, dt > 0;
                if whole > u128::MAX / 1000 {
                    assert(whole * 1000 > u128::MAX) by (nonlinear_arith)
                        requires whole > u128::MAX / 1000;
                    assert((part * 1000) / (dt as int) >= 0) by (nonlinear_arith) requires part >= 0, dt > 0;
                    Some(u128::MAX)
                } else {
                    assert(whole * 1000 <= u128::MAX) by (nonlinear_arith)
                        requires whole <= u128::MAX / 1000;
                    let big = whole * 1000;
                    let frac = (part * 1000) / dt;
                    if big > u128::MAX - frac { Some(u128::MAX) } else { Some(big + frac) }
                }
            } else {
                None
            },
            _ => None,
        };
        self.last_tokens = Some(tokens_milli);
        self.last_ms = Some(now_ms);
        r
    }
}

/// Tokens per second per watt, in thousandths, from a rate (thousandths per second) and the
/// node power (milliwatts); `None` without a power reading.
pub fn tokens_per_watt(rate_milli: u128, node_power_mw: Option<u64>) -> (r: Option<u128>)
    ensures
        match node_power_mw {
            Some(p) => p > 0 ==> r == Some((if rate_milli * 1000 / (p as int) > u128::MAX {
                u128::MAX as int
            } else {
                rate_milli * 1000 / (p as int)
            }) as u128),
            None => r is None,
        },
        node_power_mw == Some(0u64) ==> r is None,
{
    match node_power_mw {
        Some(p) => if p == 0 {
            None
        } else {
            let pw = p as u128;
            let whole = rate_milli / pw;
            let part = rate_milli % pw;
            proof {
                assert(rate_milli == whole * pw + part) by (nonlinear_arith)
                    requires whole == rate_milli / pw, part == rate_milli % pw, pw > 0;
                assert((rate_milli * 1000) / (pw as int) == whole * 1000 + (part * 1000) / (pw as int)) by (nonlinear_arith)
                    requires rate_milli == whole * pw + part, 0 <= part < pw, pw > 0;
                assert((part * 1000) / (pw as int) < 1000) by (nonlinear_arith) requires part < pw, pw > 0;
            }
            if whole > u128::MAX / 1000 {
                assert(whole * 1000 > u128::MAX) by (nonlinear_arith)
                    requires whole > u128::MAX / 1000;
                assert((part * 1000) / (pw as int) >= 0) by (nonlinear_arith) requires part >= 0, pw > 0;
                Some(u128::MAX)
            } else {
                assert(whole * 1000 <= u128::MAX) by (nonlinear_arith)
                    requires whole <= u128::MAX / 1000;
                let big = whole * 1000;
                let frac = (part * 1000) / pw;
                if big > u128::MAX - frac { Some(u128::MAX) } else { Some(big + frac) }
            }
        },
        None => None,
    }
}

} // verus!
