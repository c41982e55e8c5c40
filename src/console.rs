use vstd::prelude::*;
use vstd::string::*;
use crate::numtext::{decimal_text, fixed1_text, push_decimal, push_fixed1};

verus! {

pub const KIB: u64 = 1024;
pub const MIB: u64 = 1_048_576;
pub const GIB: u64 = 1_073_741_824;
pub const TIB: u64 = 1_099_511_627_776;

/// `v / unit` rounded to the nearest tenth, in tenths.
pub open spec fn tenths_of(v: int, unit: int) -> int {
    (v * 10 + unit / 2) / unit
}

/// A byte count for people: TiB, GiB and MiB with one decimal, KiB whole, else bytes.
pub open spec fn human_bytes_text(v: u64) -> Seq<char> {
    if v >= TIB {
        fixed1_text(tenths_of(v as int, TIB as int) * 100) + " TiB"@
    } else if v >= GIB {
        fixed1_text(tenths_of(v as int, GIB as int) * 100) + " GiB"@
    } else if v >= MIB {
        fixed1_text(tenths_of(v as int, MIB as int) * 100) + " MiB"@
    } else if v >= KIB {
        decimal_text(((v + 512) / 1024) as nat) + " KiB"@
    } else {
        decimal_text(v as nat) + " B"@
    }
}

fn push_scaled(s: &mut String, v: u64, unit: u64)
    requires
        unit == TIB || unit == GIB || unit == MIB,
    ensures
        final(s)@ == old(s)@ + fixed1_text(tenths_of(v as int, unit as int) * 100),
{
    let t: u128 = (v as u128 * 10 + unit as u128 / 2) / unit as u128;
    assert(t as int == tenths_of(v as int, unit as int));
    assert(tenths_of(v as int, unit as int) <= (v as int) * 10) by (nonlinear_arith)
        requires unit >= 1_048_576, v >= 0;
    push_fixed1(s, (t * 100) as i64);
}

pub fn human_bytes(v: u64) -> (r: String)
    ensures
        r@ == human_bytes_text(v),
{
    let mut s = String::new();
    if v >= TIB {
        push_scaled(&mut s, v, TIB);
        s.append(" TiB");
    } else if v >= GIB {
        push_scaled(&mut s, v, GIB);
        s.append(" GiB");
    } else if v >= MIB {
        push_scaled(&mut s, v, MIB);
        s.append(" MiB");
    } else if v >= KIB {
        push_decimal(&mut s, (v + 512) / 1024);
        s.append(" KiB");
    } else {
        push_decimal(&mut s, v);
        s.append(" B");
    }
    s
}

/// An uptime for people: days, hours and minutes, leaving out leading zero units.
pub open spec fn duration_text(secs: u64) -> Seq<char> {
    let days = secs / 86_400;
    let hours = (secs % 86_400) / 3600;
    let minutes = (secs % 3600) / 60;
    if days > 0 {
        decimal_text(days as nat) + "d "@ + decimal_text(hours as nat) + "h "@ + decimal_text(
            minutes as nat,
        ) + "m"@
    } else if hours > 0 {
        decimal_text(hours as nat) + "h "@ + decimal_text(minutes as nat) + "m"@
    } else {
        decimal_text(minutes as nat) + "m"@
    }
}

pub fn format_duration(secs: u64) -> (r: String)
    ensures
        r@ == duration_text(secs),
{
    let days = secs / 86_400;
    let hours = (secs % 86_400) / 3600;
    let minutes = (secs % 3600) / 60;
    let mut s = String::new();
    if days > 0 {
        push_decimal(&mut s, days);
        s.append("d ");
        push_decimal(&mut s, hours);
        s.append("h ");
        push_decimal(&mut s, minutes);
        s.append("m");
    } else if hours > 0 {
        push_decimal(&mut s, hours);
        s.append("h ");
        push_decimal(&mut s, minutes);
        s.append("m");
    } else {
        push_decimal(&mut s, minutes);
        s.append("m");
    }
    assert(s@ =~= duration_text(secs));
    s
}

} // verus!
