use vstd::prelude::*;
use vstd::string::*;
use crate::app_tokens::{is_blank, line_end, line_end_exec};
use crate::condition::{digits_value, lemma_digits_value_mono};
use crate::gpu::{trim_exec, trimmed};
use crate::predictive::texts;

verus! {

/// Packet and drop counters of one interface, as the kernel's device table lists them.
#[derive(Debug)]
pub struct NetDevCounters {
    pub name: String,
    pub rx_packets: u64,
    pub rx_dropped: u64,
    pub tx_packets: u64,
    pub tx_dropped: u64,
}

/// First position at or after `i` (below `e`) that holds no blank.
pub open spec fn skip_blank(s: Seq<char>, i: int, e: int) -> int
    decreases e - i,
{
    if 0 <= i < e && e <= s.len() && is_blank(s[i]) { skip_blank(s, i + 1, e) } else { i }
}

/// First position at or after `i` (below `e`) that holds a blank.
pub open spec fn word_end(s: Seq<char>, i: int, e: int) -> int
    decreases e - i,
{
    if 0 <= i < e && e <= s.len() && !is_blank(s[i]) { word_end(s, i + 1, e) } else { i }
}

/// The blank-separated words of `s[i..e]`.
pub open spec fn words(s: Seq<char>, i: int, e: int) -> Seq<Seq<char>>
    decreases e - i,
{
    let a = skip_blank(s, i, e);
    if a < i || a >= e || e > s.len() {
        Seq::empty()
    } else {
        let b = word_end(s, a, e);
        if b <= a || b > e { Seq::empty() } else { seq![s.subrange(a, b)] + words(s, b, e) }
    }
}

/// The value of a word of decimal digits that fits in `u64`; 0 for anything else.
pub open spec fn count_of(w: Seq<char>) -> u64 {
    if w.len() > 0 && (forall|k: int| 0 <= k < w.len() ==> '0' <= #[trigger] w[k] && w[k] <= '9')
        && digits_value(w, 0, w.len() as int) <= u64::MAX {
        digits_value(w, 0, w.len() as int) as u64
    } else {
        0
    }
}

/// Position of the first `:` in `s[i..e]`, or `e`.
pub open spec fn colon_in(s: Seq<char>, i: int, e: int) -> int
    decreases e - i,
{
    if 0 <= i < e && e <= s.len() && s[i] != ':' { colon_in(s, i + 1, e) } else { i }
}

/// What a line `s[i..e]` of the table yields: an interface name (before the first colon,
/// trimmed) and its receive packets, receive drops, transmit packets and transmit drops
/// (the second, fourth, tenth and twelfth words after the colon), where the line has a colon
/// and at least sixteen words after it.
pub open spec fn line_record(s: Seq<char>, i: int, e: int) -> Option<(Seq<char>, u64, u64, u64, u64)> {
    let c = colon_in(s, i, e);
    if c >= e {
        None
    } else {
        let w = words(s, c + 1, e);
        if w.len() < 16 {
            None
        } else {
            Some((trimmed(s, i, c), count_of(w[1]), count_of(w[3]), count_of(w[9]), count_of(w[11])))
        }
    }
}

/// The records of the lines from position `i` on; the first `skip` lines are headers.
pub open spec fn records_from(s: Seq<char>, i: int, skip: nat) -> Seq<(Seq<char>, u64, u64, u64, u64)>
    decreases s.len() - i,
{
    if i < 0 || i >= s.len() {
        Seq::empty()
    } else {
        let e = line_end(s, i);
        let rest = if i <= e < s.len() {
            records_from(s, e + 1, if skip > 0 { (skip - 1) as nat } else { 0 })
        } else {
            Seq::empty()
        };
        let here = if skip > 0 {
            Seq::empty()
        } else {
            match line_record(s, i, e) {
                Some(r) => seq![r],
                None => Seq::empty(),
            }
        };
        here + rest
    }
}

/// The record that a parsed entry stands for.
pub open spec fn record_of(c: NetDevCounters) -> (Seq<char>, u64, u64, u64, u64) {
    (c.name@, c.rx_packets, c.rx_dropped, c.tx_packets, c.tx_dropped)
}

/// The records of parsed entries, in order.
pub open spec fn records(v: Seq<NetDevCounters>) -> Seq<(Seq<char>, u64, u64, u64, u64)> {
    v.map_values(|c: NetDevCounters| record_of(c))
}

fn is_blank_char(c: char) -> (r: bool)
    ensures
        r == is_blank(c),
{
    c == ' ' || c == '\t' || c == '\r'
}

fn skip_blank_exec(s: &str, n: usize, i: usize, e: usize) -> (r: usize)
    requires
        n == s@.len(),
        i <= e <= n,
    ensures
        r == skip_blank(s@, i as int, e as int),
        i <= r <= e,
{
    let mut j = i;
    while j < e && is_blank_char(s.get_char(j))
        invariant
            n == s@.len(),
            i <= j <= e <= n,
            skip_blank(s@, j as int, e as int) == skip_blank(s@, i as int, e as int),
        decreases e - j,
    {
        j = j + 1;
    }
    j
}

fn word_end_exec(s: &str, n: usize, i: usize, e: usize) -> (r: usize)
    requires
        n == s@.len(),
        i <= e <= n,
    ensures
        r == word_end(s@, i as int, e as int),
        i <= r <= e,
{
    let mut j = i;
    while j < e && !is_blank_char(s.get_char(j))
        invariant
            n == s@.len(),
            i <= j <= e <= n,
            word_end(s@, j as int, e as int) == word_end(s@, i as int, e as int),
        decreases e - j,
    {
        j = j + 1;
    }
    j
}

fn colon_in_exec(s: &str, n: usize, i: usize, e: usize) -> (r: usize)
    requires
        n == s@.len(),
        i <= e <= n,
    ensures
        r == colon_in(s@, i as int, e as int),
        i <= r <= e,
{
    let mut j = i;
    while j < e && s.get_char(j) != ':'
        invariant
            n == s@.len(),
            i <= j <= e <= n,
            colon_in(s@, j as int, e as int) == colon_in(s@, i as int, e as int),
        decreases e - j,
    {
        j = j + 1;
    }
    j
}

proof fn lemma_skip_blank_stops(s: Seq<char>, i: int, e: int)
    requires
        0 <= i <= e <= s.len(),
    ensures
        skip_blank(s, i, e) < e ==> !is_blank(s[skip_blank(s, i, e)]),
    decreases e - i,
{
    if i < e && is_blank(s[i]) {
        lemma_skip_blank_stops(s, i + 1, e);
    }
}

proof fn lemma_word_end_ge(s: Seq<char>, i: int, e: int)
    requires
        0 <= i <= e <= s.len(),
    ensures
        i <= word_end(s, i, e),
    decreases e - i,
{
    if i < e && !is_blank(s[i]) {
        lemma_word_end_ge(s, i + 1, e);
    }
}

fn words_exec(s: &str, n: usize, i: usize, e: usize) -> (r: Vec<String>)
    requires
        n == s@.len(),
        i <= e <= n,
    ensures
        texts(r@) == words(s@, i as int, e as int),
{
    let mut out: Vec<String> = Vec::new();
    let mut j = i;
    loop
        invariant
            n == s@.len(),
            i <= j <= e <= n,
            words(s@, i as int, e as int) == texts(out@) + words(s@, j as int, e as int),
        decreases e - j,
    {
        let a = skip_blank_exec(s, n, j, e);
        if a >= e {
            assert(words(s@, j as int, e as int) =~= Seq::<Seq<char>>::empty());
            assert(texts(out@) + Seq::<Seq<char>>::empty() =~= texts(out@));
            return out;
        }
        let b = word_end_exec(s, n, a, e);
        proof {
            lemma_skip_blank_stops(s@, j as int, e as int);
            lemma_word_end_ge(s@, a + 1, e as int);
        }
        assert(b > a);
        let ghost before = out@;
        out.push(String::from_str(s.substring_char(a, b)));
        assert(texts(out@) =~= texts(before) + seq![s@.subrange(a as int, b as int)]);
        assert(words(s@, i as int, e as int) =~= texts(out@) + words(s@, b as int, e as int));
        j = b;
    }
}

/// The value of a word of decimal digits that fits in `u64`; 0 for anything else.
pub fn count_value(w: &str) -> (r: u64)
    ensures
        r == count_of(w@),
{
    let n = w.unicode_len();
    if n == 0 {
        return 0;
    }
    let mut acc: u128 = 0;
    let mut i: usize = 0;
    let mut overflow = false;
    while i < n
        invariant
            n == w@.len(),
            i <= n,
            forall|k: int| 0 <= k < i ==> '0' <= #[trigger] w@[k] && w@[k] <= '9',
            !overflow ==> acc == digits_value(w@, 0, i as int) && acc <= u64::MAX,
            overflow ==> (forall|k: int| 0 <= k < n ==> '0' <= #[trigger] w@[k] && w@[k] <= '9')
                ==> digits_value(w@, 0, n as int) > u64::MAX,
        decreases n - i,
    {
        let c = w.get_char(i);
        if !('0' <= c && c <= '9') {
            assert(!('0' <= w@[i as int] && w@[i as int] <= '9'));
            return 0;
        }
        if !overflow {
            let next: u128 = acc * 10 + (c as u32 - '0' as u32) as u128;
            if next > u64::MAX as u128 {
                overflow = true;
                proof {
                    assert(next == digits_value(w@, 0, i + 1));
                    if forall|k: int| 0 <= k < n ==> '0' <= #[trigger] w@[k] && w@[k] <= '9' {
                        assert forall|k: int| 0 <= k < n implies crate::condition::is_digit(#[trigger] w@[k]) by {
                            assert('0' <= w@[k] && w@[k] <= '9');
                        }
                        lemma_digits_value_mono(w@, 0, i + 1, n as int);
                    }
                }
            } else {
                acc = next;
            }
        }
        i = i + 1;
    }
    if overflow {
        0
    } else {
        acc as u64
    }
}

/// Reads the kernel's network device table: two header lines, then one line per interface.
/// Lines without a colon or with fewer than sixteen counters are left out.
pub fn parse_netdev(text: &str) -> (r: Vec<NetDevCounters>)
    ensures
        records(r@) == records_from(text@, 0, 2),
{
    let n = text.unicode_len();
    let mut out: Vec<NetDevCounters> = Vec::new();
    let mut i: usize = 0;
    let mut skip: usize = 2;
    while i < n
        invariant
            n == text@.len(),
            i <= n,
            skip <= 2,
            records_from(text@, 0, 2) == records(out@) + records_from(text@, i as int, skip as nat),
        decreases n - i,
    {
        let e = line_end_exec(text, n, i);
        let ghost before = out@;
        if skip == 0 {
            let c = colon_in_exec(text, n, i, e);
            if c < e {
                let w = words_exec(text, n, c + 1, e);
                if w.len() >= 16 {
                    let name = trim_exec(text.substring_char(i, c));
                    assert(name@ == trimmed(text@, i as int, c as int)) by {
                        assert(text@.subrange(i as int, c as int).subrange(0, (c - i) as int)
                            =~= text@.subrange(i as int, c as int));
                    }
                    assert(w@[1]@ == texts(w@)[1]);
                    assert(w@[3]@ == texts(w@)[3]);
                    assert(w@[9]@ == texts(w@)[9]);
                    assert(w@[11]@ == texts(w@)[11]);
                    let rec = NetDevCounters {
                        name: String::from_str(name),
                        rx_packets: count_value(w[1].as_str()),
                        rx_dropped: count_value(w[3].as_str()),
                        tx_packets: count_value(w[9].as_str()),
                        tx_dropped: count_value(w[11].as_str()),
                    };
                    out.push(rec);
                }
            }
        }
        proof {
            assert(records(out@) =~= records(before) + (if skip > 0 {
                Seq::empty()
            } else {
                match line_record(text@, i as int, e as int) {
                    Some(r) => seq![r],
                    None => Seq::empty(),
                }
            }));
        }
        if e >= n {
            i = n;
        } else {
            i = e + 1;
        }
        if skip > 0 {
            skip = skip - 1;
        }
    }
    assert(records_from(text@, n as int, skip as nat) =~= Seq::empty());
    out
}

} // verus!
