use vstd::prelude::*;
use vstd::string::*;

verus! {

/// The decimal digit character for `d`, which is below ten.
pub open spec fn digit_char(d: nat) -> char {
    if d == 0 { '0' } else if d == 1 { '1' } else if d == 2 { '2' } else if d == 3 { '3' }
    else if d == 4 { '4' } else if d == 5 { '5' } else if d == 6 { '6' } else if d == 7 { '7' }
    else if d == 8 { '8' } else { '9' }
}

/// The shortest decimal writing of `n`, most significant digit first.
pub open spec fn decimal_text(n: nat) -> Seq<char>
    decreases n,
{
    if n < 10 {
        seq![digit_char(n)]
    } else {
        decimal_text(n / 10).push(digit_char(n % 10))
    }
}

fn digit_str(d: u64) -> (r: &'static str)
    requires
        d < 10,
    ensures
        r@ == seq![digit_char(d as nat)],
{
    proof {
        reveal_strlit("0");
        reveal_strlit("1");
        reveal_strlit("2");
        reveal_strlit("3");
        reveal_strlit("4");
        reveal_strlit("5");
        reveal_strlit("6");
        reveal_strlit("7");
        reveal_strlit("8");
        reveal_strlit("9");
    }
    let r = if d == 0 { "0" } else if d == 1 { "1" } else if d == 2 { "2" } else if d == 3 { "3" }
    else if d == 4 { "4" } else if d == 5 { "5" } else if d == 6 { "6" } else if d == 7 { "7" }
    else if d == 8 { "8" } else { "9" };
    assert(r@ =~= seq![digit_char(d as nat)]);
    r
}

/// Appends the decimal writing of `n` to `s`.
pub fn push_decimal(s: &mut String, n: u64)
    ensures
        final(s)@ == old(s)@ + decimal_text(n as nat),
    decreases n,
{
    if n < 10 {
        s.append(digit_str(n));
    } else {
        push_decimal(s, n / 10);
        s.append(digit_str(n % 10));
        assert(final(s)@ =~= old(s)@ + decimal_text(n as nat));
    }
}

} // verus!

verus! {

/// `v` thousandths rounded to the nearest tenth, halves away from zero.
pub open spec fn round_to_tenths(v: int) -> int {
    if v >= 0 {
        (v + 50) / 100
    } else {
        -((-v + 50) / 100)
    }
}

/// The magnitude of an integer.
pub open spec fn abs_int(v: int) -> int {
    if v < 0 { -v } else { v }
}

/// A value held in thousandths, written with one decimal place (`85.0`, `-2.5`).
pub open spec fn fixed1_text(v: int) -> Seq<char> {
    let t = round_to_tenths(v);
    let a = abs_int(t);
    let sign = if t < 0 { seq!['-'] } else { Seq::<char>::empty() };
    sign + decimal_text((a / 10) as nat) + seq!['.', digit_char((a % 10) as nat)]
}

/// Appends `v` thousandths, written with one decimal place, to `s`.
pub fn push_fixed1(s: &mut String, v: i64)
    ensures
        final(s)@ == old(s)@ + fixed1_text(v as int),
{
    let wide: i128 = v as i128;
    let t: i128 = if wide >= 0 { (wide + 50) / 100 } else { -((-wide + 50) / 100) };
    assert(t == round_to_tenths(v as int));
    let a: u64 = if t < 0 { (-t) as u64 } else { t as u64 };
    let ghost s0 = s@;
    if t < 0 {
        proof { reveal_strlit("-"); }
        s.append("-");
    }
    let ghost s1 = s@;
    push_decimal(s, a / 10);
    proof { reveal_strlit("."); }
    s.append(".");
    s.append(digit_str(a % 10));
    assert(s@ =~= s0 + fixed1_text(v as int));
}

/// `v` thousandths written with one decimal place.
pub fn fixed1_string(v: i64) -> (r: String)
    ensures
        r@ == fixed1_text(v as int),
{
    let mut s = String::new();
    push_fixed1(&mut s, v);
    assert(s@ =~= fixed1_text(v as int));
    s
}

/// The decimal writing of `n`.
pub fn decimal_string(n: u64) -> (r: String)
    ensures
        r@ == decimal_text(n as nat),
{
    let mut s = String::new();
    push_decimal(&mut s, n);
    assert(s@ =~= decimal_text(n as nat));
    s
}

} // verus!

verus! {

/// Whether two strings hold the same characters.
pub fn str_eq(a: &str, b: &str) -> (r: bool)
    ensures
        r == (a@ == b@),
{
    let n = a.unicode_len();
    if n != b.unicode_len() {
        return false;
    }
    let mut i: usize = 0;
    while i < n
        invariant
            n == a@.len(),
            n == b@.len(),
            i <= n,
            a@.subrange(0, i as int) == b@.subrange(0, i as int),
        decreases n - i,
    {
        if a.get_char(i) != b.get_char(i) {
            return false;
        }
        i = i + 1;
        assert(a@.subrange(0, i as int) =~= b@.subrange(0, i as int)) by {
            assert(a@.subrange(0, i - 1) =~= b@.subrange(0, i - 1));
            assert forall|k: int| 0 <= k < i implies a@.subrange(0, i as int)[k] == b@.subrange(0, i as int)[k] by {
                if k < i - 1 {
                    assert(a@.subrange(0, i - 1)[k] == b@.subrange(0, i - 1)[k]);
                }
            }
        }
    }
    assert(a@ =~= a@.subrange(0, n as int));
    assert(b@ =~= b@.subrange(0, n as int));
    true
}

} // verus!

verus! {

/// A non-negative ratio held exactly as numerator and denominator.
#[derive(Clone, Copy, Debug, PartialEq, Eq, Structural)]
pub struct Ratio {
    pub num: u128,
    pub den: u128,
}

} // verus!
