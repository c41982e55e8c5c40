use vstd::prelude::*;
use vstd::string::*;

verus! {

/// The largest magnitude, in thousandths, that a threshold may have.
pub const MAX_THRESHOLD_MILLI: i64 = 1_000_000_000_000_000;

/// Comparison operator of a policy condition.
#[derive(Clone, Copy, Debug, PartialEq, Eq, Structural)]
pub enum CmpOp {
    Gt,
    Ge,
    Lt,
    Le,
    Eq,
    Ne,
}

/// A parsed condition: an operator and a threshold in thousandths.
#[derive(Clone, Copy, Debug, PartialEq, Eq, Structural)]
pub struct Condition {
    pub op: CmpOp,
    pub threshold_milli: i64,
}

pub open spec fn is_space(c: char) -> bool {
    c == ' ' || c == '\t'
}

pub open spec fn is_digit(c: char) -> bool {
    '0' <= c && c <= '9'
}

pub open spec fn digit_value(c: char) -> int {
    (c as int) - ('0' as int)
}

/// First position at or after `i` that does not hold a space.
pub open spec fn skip_spaces(s: Seq<char>, i: int) -> int
    decreases s.len() - i,
{
    if 0 <= i < s.len() && is_space(s[i]) {
        skip_spaces(s, i + 1)
    } else {
        i
    }
}

/// First position at or after `i` that does not hold a digit.
pub open spec fn digits_end(s: Seq<char>, i: int) -> int
    decreases s.len() - i,
{
    if 0 <= i < s.len() && is_digit(s[i]) {
        digits_end(s, i + 1)
    } else {
        i
    }
}

/// The number written by the digits `s[a..b]`.
pub open spec fn digits_value(s: Seq<char>, a: int, b: int) -> int
    decreases b - a,
{
    if b <= a {
        0
    } else {
        digits_value(s, a, b - 1) * 10 + digit_value(s[b - 1])
    }
}

/// The operator that starts at `i`, and the position after it.
pub open spec fn op_at(s: Seq<char>, i: int) -> Option<(CmpOp, int)> {
    let c0 = if 0 <= i < s.len() { s[i] } else { ' ' };
    let c1 = if 0 <= i + 1 < s.len() { s[i + 1] } else { ' ' };
    if c0 == '>' && c1 == '=' {
        Some((CmpOp::Ge, i + 2))
    } else if c0 == '<' && c1 == '=' {
        Some((CmpOp::Le, i + 2))
    } else if c0 == '=' && c1 == '=' {
        Some((CmpOp::Eq, i + 2))
    } else if c0 == '!' && c1 == '=' {
        Some((CmpOp::Ne, i + 2))
    } else if c0 == '>' {
        Some((CmpOp::Gt, i + 1))
    } else if c0 == '<' {
        Some((CmpOp::Lt, i + 1))
    } else if c0 == '=' {
        Some((CmpOp::Eq, i + 1))
    } else {
        None
    }
}

/// The fractional part `s[a..b]` (one to three digits) in thousandths.
pub open spec fn fraction_milli(s: Seq<char>, a: int, b: int) -> int {
    if b - a == 1 {
        digits_value(s, a, b) * 100
    } else if b - a == 2 {
        digits_value(s, a, b) * 10
    } else if b - a == 3 {
        digits_value(s, a, b)
    } else {
        digits_value(s, a, a + 3) + (if digit_value(s[a + 3]) >= 5 { 1int } else { 0int })
    }
}

/// The unsigned decimal number that starts at `i` (digits, then optionally a point and one
/// to three digits), in thousandths, and the position after it.
pub open spec fn unsigned_at(s: Seq<char>, i: int) -> Option<(int, int)> {
    let e = digits_end(s, i);
    if e == i {
        None
    } else if digits_value(s, i, e) * 1000 > MAX_THRESHOLD_MILLI {
        None
    } else if e < s.len() && s[e] == '.' {
        let f = digits_end(s, e + 1);
        if f == e + 1 {
            None
        } else {
            Some((digits_value(s, i, e) * 1000 + fraction_milli(s, e + 1, f), f))
        }
    } else {
        Some((digits_value(s, i, e) * 1000, e))
    }
}

/// The signed decimal number that starts at `i`, in thousandths, and the position after it.
pub open spec fn number_at(s: Seq<char>, i: int) -> Option<(int, int)> {
    if 0 <= i < s.len() && s[i] == '-' {
        match unsigned_at(s, i + 1) {
            Some((v, e)) => Some((-v, e)),
            None => None,
        }
    } else {
        unsigned_at(s, i)
    }
}

/// Position after an optional unit character (`%` or `C`) at `i`.
pub open spec fn skip_unit(s: Seq<char>, i: int) -> int {
    if 0 <= i < s.len() && (s[i] == '%' || s[i] == 'C') {
        i + 1
    } else {
        i
    }
}

/// The condition that `s` writes: spaces, an operator, at least one space, a number with an
/// optional unit character, and trailing spaces; `None` for anything else.
pub open spec fn condition_of(s: Seq<char>) -> Option<Condition> {
    match op_at(s, skip_spaces(s, 0)) {
        None => None,
        Some((op, p)) => {
            let q = skip_spaces(s, p);
            if q == p {
                None
            } else {
                match number_at(s, q) {
                    None => None,
                    Some((v, e)) => {
                        if skip_spaces(s, skip_unit(s, e)) == s.len() {
                            Some(Condition { op, threshold_milli: v as i64 })
                        } else {
                            None
                        }
                    },
                }
            }
        },
    }
}

/// Whether `current` (thousandths) meets the comparison against `threshold`.
pub open spec fn compare_holds(op: CmpOp, current: int, threshold: int) -> bool {
    match op {
        CmpOp::Gt => current > threshold,
        CmpOp::Ge => current >= threshold,
        CmpOp::Lt => current < threshold,
        CmpOp::Le => current <= threshold,
        CmpOp::Eq => current == threshold,
        CmpOp::Ne => current != threshold,
    }
}

proof fn lemma_digits_end_bounds(s: Seq<char>, i: int)
    requires
        0 <= i <= s.len(),
    ensures
        i <= digits_end(s, i) <= s.len(),
        forall|k: int| i <= k < digits_end(s, i) ==> is_digit(#[trigger] s[k]),
    decreases s.len() - i,
{
    if i < s.len() && is_digit(s[i]) {
        lemma_digits_end_bounds(s, i + 1);
    }
}

pub(crate) proof fn lemma_digits_value_mono(s: Seq<char>, a: int, b: int, c: int)
    requires
        a <= b <= c,
        forall|k: int| a <= k < c ==> is_digit(#[trigger] s[k]),
    ensures
        0 <= digits_value(s, a, b) <= digits_value(s, a, c),
    decreases c - a,
{
    if c > b {
        lemma_digits_value_mono(s, a, b, c - 1);
        assert(is_digit(s[c - 1]));
    } else if b > a {
        lemma_digits_value_mono(s, a, b - 1, b - 1);
        assert(is_digit(s[b - 1]));
    }
}

/// An unsigned number never exceeds the largest threshold by a whole unit.
pub proof fn lemma_unsigned_value_bound(s: Seq<char>, i: int)
    requires
        0 <= i <= s.len(),
    ensures
        unsigned_at(s, i) matches Some((v, e)) ==> 0 <= v <= MAX_THRESHOLD_MILLI + 1000,
{
    lemma_digits_end_bounds(s, i);
    let e = digits_end(s, i);
    lemma_digits_value_mono(s, i, i, e);
    if e < s.len() && s[e] == '.' {
        lemma_digits_end_bounds(s, e + 1);
        let f = digits_end(s, e + 1);
        if f != e + 1 {
            lemma_fraction_small(s, e + 1, f);
        }
    }
}

proof fn lemma_fraction_small(s: Seq<char>, a: int, b: int)
    requires
        1 <= b - a,
        forall|k: int| a <= k < b ==> is_digit(#[trigger] s[k]),
    ensures
        b - a <= 3 ==> 0 <= digits_value(s, a, b) < 1000,
        b - a > 3 ==> 0 <= digits_value(s, a, a + 3) < 1000,
        0 <= fraction_milli(s, a, b) <= 1000,
{
    assert(is_digit(s[a]));
    assert(digits_value(s, a, a) == 0);
    assert(digits_value(s, a, a + 1) == digit_value(s[a]));
    if b - a >= 2 {
        assert(is_digit(s[a + 1]));
        assert(digits_value(s, a, a + 2) == digits_value(s, a, a + 1) * 10 + digit_value(s[a + 1]));
    }
    if b - a >= 3 {
        assert(is_digit(s[a + 2]));
        assert(digits_value(s, a, a + 3) == digits_value(s, a, a + 2) * 10 + digit_value(s[a + 2]));
    }
}

fn skip_spaces_exec(s: &str, n: usize, i: usize) -> (r: usize)
    requires
        n == s@.len(),
        i <= n,
    ensures
        r == skip_spaces(s@, i as int),
        i <= r <= n,
{
    let mut j = i;
    while j < n && (s.get_char(j) == ' ' || s.get_char(j) == '\t')
        invariant
            n == s@.len(),
            i <= j <= n,
            skip_spaces(s@, j as int) == skip_spaces(s@, i as int),
        decreases n - j,
    {
        j = j + 1;
    }
    j
}

fn digits_end_exec(s: &str, n: usize, i: usize) -> (r: usize)
    requires
        n == s@.len(),
        i <= n,
    ensures
        r == digits_end(s@, i as int),
        i <= r <= n,
{
    let mut j = i;
    while j < n && ('0' <= s.get_char(j) && s.get_char(j) <= '9')
        invariant
            n == s@.len(),
            i <= j <= n,
            digits_end(s@, j as int) == digits_end(s@, i as int),
        decreases n - j,
    {
        j = j + 1;
    }
    j
}

/// The value of the digits `s[a..b]`, or `None` where it is above `limit`.
fn digits_value_exec(s: &str, n: usize, a: usize, b: usize, limit: u64) -> (r: Option<u64>)
    requires
        n == s@.len(),
        a <= b <= n,
        forall|k: int| a <= k < b ==> is_digit(#[trigger] s@[k]),
        limit <= 1_000_000_000_000_000_000,
    ensures
        r matches Some(v) ==> v == digits_value(s@, a as int, b as int) && v <= limit,
        r is None ==> digits_value(s@, a as int, b as int) > limit,
{
    let mut acc: u64 = 0;
    let mut j = a;
    while j < b
        invariant
            n == s@.len(),
            a <= j <= b <= n,
            forall|k: int| a <= k < b ==> is_digit(#[trigger] s@[k]),
            acc == digits_value(s@, a as int, j as int),
            acc <= limit,
            limit <= 1_000_000_000_000_000_000,
        decreases b - j,
    {
        let c = s.get_char(j);
        assert(is_digit(s@[j as int]));
        let d = (c as u32 - '0' as u32) as u64;
        let next: u64 = acc * 10 + d;
        j = j + 1;
        if next > limit {
            proof {
                lemma_digits_value_mono(s@, a as int, j as int, b as int);
            }
            return None;
        }
        acc = next;
    }
    Some(acc)
}

pub(crate) fn unsigned_at_exec(s: &str, n: usize, i: usize) -> (r: Option<(u64, usize)>)
    requires
        n == s@.len(),
        i <= n,
    ensures
        match r {
            Some((v, e)) => unsigned_at(s@, i as int) == Some((v as int, e as int)) && e <= n
                && v <= MAX_THRESHOLD_MILLI + 1000,
            None => unsigned_at(s@, i as int) is None,
        },
{
    let e = digits_end_exec(s, n, i);
    proof { lemma_digits_end_bounds(s@, i as int); }
    if e == i {
        return None;
    }
    let whole = match digits_value_exec(s, n, i, e, 1_000_000_000_000) {
        Some(w) => w,
        None => return None,
    };
    if e < n && s.get_char(e) == '.' {
        let f = digits_end_exec(s, n, e + 1);
        proof { lemma_digits_end_bounds(s@, e + 1); }
        if f == e + 1 {
            return None;
        }
        proof { lemma_fraction_small(s@, (e + 1) as int, f as int); }
        let end3 = if f - (e + 1) > 3 { e + 4 } else { f };
        let frac_digits = match digits_value_exec(s, n, e + 1, end3, 1000) {
            Some(v) => v,
            None => return None,
        };
        let frac: u64 = if f - (e + 1) == 1 {
            frac_digits * 100
        } else if f - (e + 1) == 2 {
            frac_digits * 10
        } else if f - (e + 1) == 3 {
            frac_digits
        } else {
            let c = s.get_char(e + 4);
            proof { assert(is_digit(s@[(e + 4) as int])); }
            if (c as u32 - '0' as u32) >= 5 { frac_digits + 1 } else { frac_digits }
        };
        assert(whole * 1000 <= 1_000_000_000_000_000) by (nonlinear_arith)
            requires whole <= 1_000_000_000_000;
        Some((whole * 1000 + frac, f))
    } else {
        assert(whole * 1000 <= 1_000_000_000_000_000) by (nonlinear_arith)
            requires whole <= 1_000_000_000_000;
        Some((whole * 1000, e))
    }
}

/// Parses a condition such as `> 80`, `<= 5%` or `!= 70.5C`; `None` where the text is not
/// one.
pub fn parse_condition(text: &str) -> (r: Option<Condition>)
    ensures
        r == condition_of(text@),
{
    let n = text.unicode_len();
    let start = skip_spaces_exec(text, n, 0);
    let c0 = if start < n { text.get_char(start) } else { ' ' };
    let c1 = if start < n && start + 1 < n { text.get_char(start + 1) } else { ' ' };
    let (op, p): (CmpOp, usize) = if c0 == '>' && c1 == '=' {
        (CmpOp::Ge, start + 2)
    } else if c0 == '<' && c1 == '=' {
        (CmpOp::Le, start + 2)
    } else if c0 == '=' && c1 == '=' {
        (CmpOp::Eq, start + 2)
    } else if c0 == '!' && c1 == '=' {
        (CmpOp::Ne, start + 2)
    } else if c0 == '>' {
        (CmpOp::Gt, start + 1)
    } else if c0 == '<' {
        (CmpOp::Lt, start + 1)
    } else if c0 == '=' {
        (CmpOp::Eq, start + 1)
    } else {
        return None;
    };
    assert(op_at(text@, start as int) == Some((op, p as int)));
    if p > n {
        return None;
    }
    let q = skip_spaces_exec(text, n, p);
    if q == p {
        return None;
    }
    let negative = q < n && text.get_char(q) == '-';
    let num_start = if negative { q + 1 } else { q };
    let (mag, e) = match unsigned_at_exec(text, n, num_start) {
        Some(x) => x,
        None => return None,
    };
    let value: i64 = if negative { -(mag as i64) } else { mag as i64 };
    assert(number_at(text@, q as int) == Some((value as int, e as int)));
    let u = if e < n && (text.get_char(e) == '%' || text.get_char(e) == 'C') { e + 1 } else { e };
    assert(u as int == skip_unit(text@, e as int));
    let tail = skip_spaces_exec(text, n, u);
    if tail == n {
        Some(Condition { op, threshold_milli: value })
    } else {
        None
    }
}

/// Whether `current` (thousandths) meets the comparison of `cond`.
pub fn condition_holds(cond: &Condition, current: i64) -> (r: bool)
    ensures
        r == compare_holds(cond.op, current as int, cond.threshold_milli as int),
{
    match cond.op {
        CmpOp::Gt => current > cond.threshold_milli,
        CmpOp::Ge => current >= cond.threshold_milli,
        CmpOp::Lt => current < cond.threshold_milli,
        CmpOp::Le => current <= cond.threshold_milli,
        CmpOp::Eq => current == cond.threshold_milli,
        CmpOp::Ne => current != cond.threshold_milli,
    }
}

/// Evaluates `condition` against `current` (thousandths): whether it holds, and its
/// threshold; `None` where the text is not a condition.
pub fn check_condition(current: i64, condition: &str) -> (r: Option<(bool, i64)>)
    ensures
        match condition_of(condition@) {
            None => r is None,
            Some(c) => r == Some((compare_holds(c.op, current as int, c.threshold_milli as int),
                c.threshold_milli)),
        },
{
    match parse_condition(condition) {
        None => None,
        Some(c) => Some((condition_holds(&c, current), c.threshold_milli)),
    }
}

} // verus!
