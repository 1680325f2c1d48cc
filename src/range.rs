use vstd::prelude::*;

verus! {

/// Rust's integer division: the exact quotient rounded toward zero.
pub open spec fn quotient(n: int, d: int) -> int {
    if n >= 0 {
        n / d
    } else {
        -((-n) / d)
    }
}

/// The affine map that sends `from_min` to `to_min` and `from_max` to `to_max`,
/// with the division rounded toward zero.
pub open spec fn rescaled(value: int, from_min: int, from_max: int, to_min: int, to_max: int) -> int {
    to_min + quotient((value - from_min) * (to_max - to_min), from_max - from_min)
}

/// Dividing a non-negative number by a nonzero one does not move it away from zero.
proof fn lemma_div_toward_zero(n: int, d: int)
    requires
        n >= 0,
        d != 0,
    ensures
        -n <= n / d <= n,
        n > 0 && d != -1 ==> -n < n / d,
{
    if d > 0 {
        assert(0 <= n / d <= n) by (nonlinear_arith)
            requires
                n >= 0,
                d > 0,
        ;
    } else if d == -1 {
        assert(n / d == -n) by (nonlinear_arith)
            requires
                d == -1,
        ;
    } else {
        assert(-n <= n / d <= 0 && (n > 0 ==> -n < n / d)) by (nonlinear_arith)
            requires
                n >= 0,
                d < -1,
        ;
    }
}

/// Dividing a multiple of `m` by `m` gives back the factor, whatever the signs.
proof fn lemma_quotient_of_multiple(k: int, m: int)
    requires
        m != 0,
    ensures
        quotient(k * m, m) == k,
{
    assert((k * m) / m == k && ((-(k * m)) / m) == -k) by (nonlinear_arith)
        requires
            m != 0,
    {
        vstd::arithmetic::div_mod::lemma_fundamental_div_mod(k * m, m);
        vstd::arithmetic::div_mod::lemma_fundamental_div_mod(-(k * m), m);
    }
}

/// Mapping an interval onto itself leaves every value where it was.
pub proof fn lemma_normalize_identity(value: int, a: int, b: int)
    requires
        a != b,
    ensures
        rescaled(value, a, b, a, b) == value,
{
    lemma_quotient_of_multiple(value - a, b - a);
}

/// The map sends the first interval's ends exactly onto the second's.
pub proof fn lemma_normalize_endpoints(a: int, b: int, c: int, d: int)
    requires
        a != b,
    ensures
        rescaled(a, a, b, c, d) == c,
        rescaled(b, a, b, c, d) == d,
{
    assert((a - a) * (d - c) == 0);
    lemma_quotient_of_multiple(d - c, b - a);
    assert((b - a) * (d - c) == (d - c) * (b - a)) by (nonlinear_arith);
}

/// Whether `x` is a value of `i64`.
pub open spec fn fits_i64(x: int) -> bool {
    i64::MIN <= x <= i64::MAX
}

/// Whether every intermediate value of the rescaling is a value of `i64`.
pub open spec fn rescale_fits(value: int, from_min: int, from_max: int, to_min: int, to_max: int) -> bool {
    &&& fits_i64(value - from_min)
    &&& fits_i64(to_max - to_min)
    &&& fits_i64(from_max - from_min)
    &&& fits_i64((value - from_min) * (to_max - to_min))
    &&& !((value - from_min) * (to_max - to_min) == i64::MIN && from_max - from_min == -1)
    &&& fits_i64(rescaled(value, from_min, from_max, to_min, to_max))
}

/// Relies on num's `AsPrimitive<i64>` for `i32`, which is the `as` cast:
/// every `i32` is kept as it is.
#[verifier::external_body]
fn widen(value: i32) -> (r: i64)
    ensures
        r == value,
{
    num::cast::AsPrimitive::<i64>::as_(value)
}

/// Maps `value` from the interval `[from_min, from_max]` onto
/// `[to_min, to_max]`, without clamping: a value outside the first interval
/// lands outside the second.
pub fn normalize(value: i32, from_min: i64, from_max: i64, to_min: i64, to_max: i64) -> (r: i64)
    requires
        from_max != from_min,
        rescale_fits(value as int, from_min as int, from_max as int, to_min as int, to_max as int),
    ensures
        r == rescaled(value as int, from_min as int, from_max as int, to_min as int, to_max as int),
{
    let v = widen(value);
    let offset = v - from_min;
    let scaled = offset * (to_max - to_min);
    let span = from_max - from_min;
    proof {
        if scaled >= 0 {
            lemma_div_toward_zero(scaled as int, span as int);
        } else {
            lemma_div_toward_zero(-scaled, span as int);
        }
    }
    let q = scaled / span;
    to_min + q
}

} // verus!
