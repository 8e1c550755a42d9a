//! Human-readable rendering of byte counts.
use vstd::prelude::*;
use crate::text::{append_decimal, decimal};

verus! {

pub const KIB: u64 = 1024;
pub const MIB: u64 = 1024 * 1024;
pub const GIB: u64 = 1024 * 1024 * 1024;
pub const TIB: u64 = 1024 * 1024 * 1024 * 1024;

/// `n` in units of `unit`, with one decimal place, truncated.
pub open spec fn scaled(n: u64, unit: u64) -> Seq<char>
    recommends
        unit > 0,
{
    decimal((n / unit) as nat) + seq!['.'] + decimal((((n % unit) as int) * 10 / (unit as int)) as nat)
}

/// The rendering of a size in bytes: plain bytes below one KB, otherwise
/// the largest binary unit up to TB that fits, with one decimal place.
pub open spec fn size_text(n: u64) -> Seq<char> {
    if n < KIB {
        decimal(n as nat) + " B"@
    } else if n < MIB {
        scaled(n, KIB) + " KB"@
    } else if n < GIB {
        scaled(n, MIB) + " MB"@
    } else if n < TIB {
        scaled(n, GIB) + " GB"@
    } else {
        scaled(n, TIB) + " TB"@
    }
}

fn append_scaled(s: &mut String, n: u64, unit: u64)
    requires
        0 < unit <= TIB,
    ensures
        final(s)@ == old(s)@ + scaled(n, unit),
{
    append_decimal(s, n / unit);
    s.append(".");
    proof {
        reveal_strlit(".");
    }
    let frac: u64 = n % unit;
    assert(frac * 10 < unit * 10) by (nonlinear_arith)
        requires
            frac < unit,
    ;
    append_decimal(s, frac * 10 / unit);
    assert(s@ =~= old(s)@ + scaled(n, unit));
}

/// Renders a byte count for display, e.g. `"32.0 GB"`.
pub fn format_size(n: u64) -> (r: String)
    ensures
        r@ == size_text(n),
{
    let mut s = String::new();
    if n < KIB {
        append_decimal(&mut s, n);
        s.append(" B");
    } else if n < MIB {
        append_scaled(&mut s, n, KIB);
        s.append(" KB");
    } else if n < GIB {
        append_scaled(&mut s, n, MIB);
        s.append(" MB");
    } else if n < TIB {
        append_scaled(&mut s, n, GIB);
        s.append(" GB");
    } else {
        append_scaled(&mut s, n, TIB);
        s.append(" TB");
    }
    assert(s@ =~= size_text(n));
    s
}

} // verus!
