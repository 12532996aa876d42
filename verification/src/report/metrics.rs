//! Sizes and interface counts of the two builds. They inform; no verdict
//! depends on them.

use vstd::prelude::*;

use crate::text;

verus! {

/// Sizes and interface counts of the old and the new build.
#[derive(Debug, Clone, Copy, PartialEq, Eq, Structural)]
pub struct BuildMetrics {
    pub old_size_bytes: usize,
    pub new_size_bytes: usize,
    /// How many bytes the new build is larger.
    pub size_delta_bytes: i64,
    pub old_function_count: usize,
    pub new_function_count: usize,
    pub old_struct_count: usize,
    pub new_struct_count: usize,
    pub old_enum_count: usize,
    pub new_enum_count: usize,
    pub old_union_count: usize,
    pub new_union_count: usize,
    pub old_error_enum_count: usize,
    pub new_error_enum_count: usize,
}

/// `new - old` on the numbers as signed 64-bit ones.
pub open spec fn signed_delta(old: usize, new: usize) -> int {
    (new as i64) - (old as i64)
}

/// Whether a difference is a signed 64-bit number.
pub open spec fn fits(d: int) -> bool {
    i64::MIN <= d <= i64::MAX
}

/// Whether every difference of counts is a signed 64-bit number. It is wherever
/// the counts are below 2^63.
pub open spec fn deltas_fit(m: BuildMetrics) -> bool {
    &&& fits(signed_delta(m.old_function_count, m.new_function_count))
    &&& fits(signed_delta(m.old_struct_count, m.new_struct_count))
    &&& fits(signed_delta(m.old_enum_count, m.new_enum_count))
    &&& fits(signed_delta(m.old_union_count, m.new_union_count))
    &&& fits(signed_delta(m.old_error_enum_count, m.new_error_enum_count))
}

/// `new - old` on the numbers as signed 64-bit ones.
pub fn delta_of(old: usize, new: usize) -> (d: i64)
    requires
        fits(signed_delta(old, new)),
    ensures
        d == signed_delta(old, new),
{
    (new as i64) - (old as i64)
}

/// `a / b`, rounded to the nearest integer; halfway between two, to the even
/// one.
pub open spec fn rounded_quotient(a: nat, b: nat) -> nat {
    let q = a / b;
    let twice = 2 * (a % b);
    if twice < b || twice == b && q % 2 == 0 {
        q
    } else {
        q + 1
    }
}

/// The distance of neighbouring double-precision numbers around `n`.
pub open spec fn double_step(n: nat) -> nat
    decreases n,
{
    if n < 0x20_0000_0000_0000 {
        1
    } else {
        2 * double_step(n / 2)
    }
}

/// The double-precision number nearest to `n`.
pub open spec fn nearest_double(n: nat) -> nat {
    rounded_quotient(n, double_step(n)) * double_step(n)
}

/// `n / unit` with two decimals.
pub open spec fn two_decimals(n: nat, unit: nat) -> Seq<char> {
    let h = rounded_quotient(nearest_double(n) * 100, unit);
    text::decimal(h / 100) + "."@ + text::decimal((h % 100) / 10) + text::decimal(h % 10)
}

/// A number of bytes in the unit that suits it.
pub open spec fn bytes_text(n: nat) -> Seq<char> {
    if n >= 1_048_576 {
        two_decimals(n, 1_048_576) + " MB"@
    } else if n >= 1024 {
        two_decimals(n, 1024) + " KB"@
    } else {
        text::decimal(n) + " B"@
    }
}

/// The magnitude of a difference.
pub open spec fn magnitude_of(d: i64) -> int {
    if d >= 0 {
        d as int
    } else {
        -(d as int)
    }
}

/// A difference of sizes: its sign and its magnitude in the unit that suits it.
pub open spec fn delta_text(d: i64) -> Seq<char> {
    (if d >= 0 {
        "+"@
    } else {
        "-"@
    }) + bytes_text(#[verifier::truncate] (magnitude_of(d) as u64 as usize) as nat)
}

fn round_quotient(a: u128, b: u128) -> (r: u128)
    requires
        0 < b,
        a < 0x1_0000_0000_0000_0000_0000_0000_0000,
        b < 0x1_0000_0000_0000_0000_0000_0000_0000,
    ensures
        r == rounded_quotient(a as nat, b as nat),
        r <= a / b + 1,
{
    let q = a / b;
    let twice = 2 * (a % b);
    assert(q <= a) by (nonlinear_arith)
        requires
            q == a / b,
            0 < b,
    ;
    if twice < b || (twice == b && q % 2 == 0) {
        q
    } else {
        q + 1
    }
}

fn step_of(n: u64) -> (p: u128)
    ensures
        p == double_step(n as nat),
        p == 1 || 1 <= p <= n / 0x10_0000_0000_0000,
    decreases n,
{
    if n < 0x20_0000_0000_0000 {
        1
    } else {
        let half = step_of(n / 2);
        2 * half
    }
}

fn with_two_decimals(n: u64, unit: u64) -> (r: String)
    requires
        1024 <= unit,
    ensures
        r@ == two_decimals(n as nat, unit as nat),
{
    let step = step_of(n);
    let q = round_quotient(n as u128, step);
    proof {
        lemma_rounding_is_close(n as nat, step as nat);
    }
    let near: u128 = q * step;
    assert(near == nearest_double(n as nat));
    let h = round_quotient(near * 100, unit as u128);
    assert(h <= 0x8000_0000_0000_0000) by {
        assert((near * 100) / (unit as int) <= (near * 100) / 1024) by (nonlinear_arith)
            requires
                0 <= near,
                1024 <= unit,
        ;
    }
    let h = h as u64;
    let mut out = text::decimal_text(h / 100);
    out.append(".");
    out.append(text::decimal_text((h % 100) / 10).as_str());
    out.append(text::decimal_text(h % 10).as_str());
    out
}

proof fn lemma_rounding_is_close(n: nat, step: nat)
    requires
        step >= 1,
        n <= u64::MAX,
        step <= n / 0x10_0000_0000_0000 + 1,
    ensures
        rounded_quotient(n, step) * step <= n + step,
        n + step <= 0x1_1000_0000_0000_0000,
{
    let q = n / step;
    assert(q * step <= n && (q + 1) * step <= n + step) by (nonlinear_arith)
        requires
            q == n / step,
            step >= 1,
    ;
}

impl BuildMetrics {
    /// The metrics of two builds.
    pub fn new(
        old_size_bytes: usize,
        new_size_bytes: usize,
        old_fn: usize,
        new_fn: usize,
        old_struct: usize,
        new_struct: usize,
        old_enum: usize,
        new_enum: usize,
        old_union: usize,
        new_union: usize,
        old_err: usize,
        new_err: usize,
    ) -> (r: Self)
        requires
            fits(signed_delta(old_size_bytes, new_size_bytes)),
        ensures
            r == (BuildMetrics {
                old_size_bytes,
                new_size_bytes,
                size_delta_bytes: signed_delta(old_size_bytes, new_size_bytes) as i64,
                old_function_count: old_fn,
                new_function_count: new_fn,
                old_struct_count: old_struct,
                new_struct_count: new_struct,
                old_enum_count: old_enum,
                new_enum_count: new_enum,
                old_union_count: old_union,
                new_union_count: new_union,
                old_error_enum_count: old_err,
                new_error_enum_count: new_err,
            }),
    {
        BuildMetrics {
            old_size_bytes,
            new_size_bytes,
            size_delta_bytes: delta_of(old_size_bytes, new_size_bytes),
            old_function_count: old_fn,
            new_function_count: new_fn,
            old_struct_count: old_struct,
            new_struct_count: new_struct,
            old_enum_count: old_enum,
            new_enum_count: new_enum,
            old_union_count: old_union,
            new_union_count: new_union,
            old_error_enum_count: old_err,
            new_error_enum_count: new_err,
        }
    }

    /// A number of bytes in the unit that suits it.
    pub fn format_bytes(n: usize) -> (r: String)
        ensures
            r@ == bytes_text(n as nat),
    {
        let n = n as u64;
        if n >= 1_048_576 {
            let mut out = with_two_decimals(n, 1_048_576);
            out.append(" MB");
            out
        } else if n >= 1024 {
            let mut out = with_two_decimals(n, 1024);
            out.append(" KB");
            out
        } else {
            let mut out = text::decimal_text(n);
            out.append(" B");
            out
        }
    }

    /// A difference of sizes: its sign and its magnitude in the unit that suits
    /// it.
    pub fn format_delta(d: i64) -> (r: String)
        ensures
            r@ == delta_text(d),
    {
        let mut out = if d >= 0 {
            "+".to_string()
        } else {
            "-".to_string()
        };
        let size = #[verifier::truncate] (text::magnitude(d) as usize);
        out.append(Self::format_bytes(size).as_str());
        out
    }
}

} // verus!
