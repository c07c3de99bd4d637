use vstd::prelude::*;
use crate::bounds::imax;

verus! {

/// Fewest ticks an axis may carry.
pub const MIN_TICKS: i128 = 3;

/// Most ticks an axis may carry (a consequence of the step choice below).
pub const MAX_TICKS: i128 = 8;

/// Floor division (toward minus infinity), as `int` division has it.
pub open spec fn fdiv(a: int, b: int) -> int {
    a / b
}

/// Ceiling division (toward plus infinity).
pub open spec fn cdiv(a: int, b: int) -> int {
    -((-a) / b)
}

/// How many multiples of `s` lie in the closed interval `lo ..= hi`.
pub open spec fn tick_count(lo: int, hi: int, s: int) -> int {
    fdiv(hi, s) - cdiv(lo, s) + 1
}

/// Floor division brackets its argument: `b * fdiv(a, b)` is the greatest
/// multiple of `b` that is at most `a`.
pub proof fn lemma_fdiv_bounds(a: int, b: int)
    requires
        b >= 1,
    ensures
        b * fdiv(a, b) <= a < b * fdiv(a, b) + b,
{
    vstd::arithmetic::div_mod::lemma_fundamental_div_mod(a, b);
    vstd::arithmetic::div_mod::lemma_mod_bound(a, b);
}

/// Ceiling division brackets its argument: `b * cdiv(a, b)` is the least
/// multiple of `b` that is at least `a`.
pub proof fn lemma_cdiv_bounds(a: int, b: int)
    requires
        b >= 1,
    ensures
        a <= b * cdiv(a, b) < a + b,
{
    let q = (-a) / b;
    vstd::arithmetic::div_mod::lemma_fundamental_div_mod(-a, b);
    vstd::arithmetic::div_mod::lemma_mod_bound(-a, b);
    assert(b * cdiv(a, b) == -(b * q)) by (nonlinear_arith)
        requires cdiv(a, b) == -q;
}

/// The successor of a step `m * p` in the 1-2-5 ladder, as a
/// mantissa / power-of-ten pair.
pub open spec fn step_next(m: int, p: int) -> (int, int) {
    if m == 1 {
        (2int, p)
    } else if m == 2 {
        (5int, p)
    } else {
        (1int, p * 10)
    }
}

pub open spec fn step_args_wf(m: int, p: int) -> bool {
    p >= 1 && (m == 1 || m == 2 || m == 5)
}

/// At least three multiples of `s` in `lo ..= hi` force a span of at
/// least twice `s`.
proof fn lemma_count_ge_3_span(lo: int, hi: int, s: int)
    requires
        s >= 1,
        tick_count(lo, hi, s) >= 3,
    ensures
        hi - lo >= 2 * s,
{
    let f = fdiv(hi, s);
    let c = cdiv(lo, s);
    lemma_fdiv_bounds(hi, s);
    lemma_cdiv_bounds(lo, s);
    assert(f - c >= 2);
    assert(s * f - s * c >= 2 * s) by (nonlinear_arith)
        requires s >= 1 && f - c >= 2;
    assert(hi - lo >= s * f - s * c);
}

/// Walk the 1-2-5 ladder upward from step `m * p` while the next step
/// still leaves at least `MIN_TICKS` multiples in `lo ..= hi`; the
/// result is the largest such step.
pub open spec fn step_from(lo: int, hi: int, m: int, p: int) -> int
    decreases imax(hi - lo - m * p, 0),
        when step_args_wf(m, p) && lo < hi
        via step_from_dec
{
    let nx = step_next(m, p);
    if tick_count(lo, hi, nx.0 * nx.1) >= MIN_TICKS as int {
        step_from(lo, hi, nx.0, nx.1)
    } else {
        m * p
    }
}

#[via_fn]
proof fn step_from_dec(lo: int, hi: int, m: int, p: int) {
    let nx = step_next(m, p);
    let ns = nx.0 * nx.1;
    if tick_count(lo, hi, ns) >= MIN_TICKS as int {
        assert(ns >= 1 && ns > m * p) by (nonlinear_arith)
            requires step_args_wf(m, p) && nx == step_next(m, p) && ns == nx.0 * nx.1;
        lemma_count_ge_3_span(lo, hi, ns);
        assert(hi - lo - ns >= ns);
    }
}

/// The step the renderer uses for an axis spanning `lo ..= hi`.
pub open spec fn spec_step(lo: int, hi: int) -> int {
    step_from(lo, hi, 1, 1)
}

/// Fewer than three multiples of `n` bound the span by three times `n`.
proof fn lemma_count_lt_3_span(lo: int, hi: int, n: int)
    requires
        n >= 1,
        lo < hi,
        tick_count(lo, hi, n) < 3,
    ensures
        hi - lo < 3 * n,
{
    let f = fdiv(hi, n);
    let c = cdiv(lo, n);
    lemma_fdiv_bounds(hi, n);
    lemma_cdiv_bounds(lo, n);
    assert(hi < n * f + n);
    assert(lo > n * c - n);
    assert(f - c <= 1);
    assert(n * f - n * c <= n) by (nonlinear_arith)
        requires n >= 1 && f - c <= 1;
    assert(hi - lo < n * f + n - (n * c - n));
}

/// The chosen step keeps the tick count within `MIN_TICKS ..= MAX_TICKS`,
/// and no smaller 1-2-5 step is skipped over.
pub proof fn lemma_step_from_props(lo: int, hi: int, m: int, p: int)
    requires
        step_args_wf(m, p),
        lo < hi,
        tick_count(lo, hi, m * p) >= MIN_TICKS as int,
    ensures
        step_from(lo, hi, m, p) >= m * p,
        step_from(lo, hi, m, p) >= 1,
        MIN_TICKS as int <= tick_count(lo, hi, step_from(lo, hi, m, p)) <= MAX_TICKS as int,
    decreases imax(hi - lo - m * p, 0),
{
    let nx = step_next(m, p);
    let ns = nx.0 * nx.1;
    assert(ns >= 1 && ns > m * p && 2 * ns <= 5 * (m * p)) by (nonlinear_arith)
        requires step_args_wf(m, p) && nx == step_next(m, p) && ns == nx.0 * nx.1;
    if tick_count(lo, hi, ns) >= MIN_TICKS as int {
        lemma_count_ge_3_span(lo, hi, ns);
        lemma_step_from_props(lo, hi, nx.0, nx.1);
    } else {
        let s = m * p;
        assert(step_from(lo, hi, m, p) == s);
        lemma_count_lt_3_span(lo, hi, ns);
        // hi - lo < 3 * ns and 2 * ns <= 5 * s, so 2 * (hi - lo) < 15 * s.
        let f = fdiv(hi, s);
        let c = cdiv(lo, s);
        lemma_fdiv_bounds(hi, s);
        lemma_cdiv_bounds(lo, s);
        assert(s * (f - c) <= hi - lo) by (nonlinear_arith)
            requires s * f <= hi && s * c >= lo;
        assert(2 * (hi - lo) < 15 * s);
        assert(f - c <= 7) by (nonlinear_arith)
            requires s >= 1 && s * (f - c) <= hi - lo && 2 * (hi - lo) < 15 * s;
    }
}

/// Floor division of a bounded `i128` by a positive divisor.
pub fn floor_div(a: i128, b: i128) -> (r: i128)
    requires
        1 <= b,
        -0x4000_0000_0000_0000_0000_0000 <= a <= 0x4000_0000_0000_0000_0000_0000,
    ensures
        r == fdiv(a as int, b as int),
        a >= 0 ==> 0 <= r <= a,
        a < 0 ==> a <= r <= 0,
{
    if a >= 0 {
        let q = a / b;
        proof {
            assert(q == a as int / b as int && 0 <= q <= a) by (nonlinear_arith)
                requires a >= 0 && b >= 1 && q == a / b;
        }
        q
    } else {
        let m = -a;
        let q = m / b;
        let rem = m % b;
        proof {
            assert(q == m as int / b as int && rem == m as int % b as int) by (nonlinear_arith)
                requires m >= 0 && b >= 1 && q == m / b && rem == m % b;
            vstd::arithmetic::div_mod::lemma_fundamental_div_mod(m as int, b as int);
            vstd::arithmetic::div_mod::lemma_mod_bound(m as int, b as int);
            vstd::arithmetic::div_mod::lemma_fundamental_div_mod(a as int, b as int);
            vstd::arithmetic::div_mod::lemma_mod_bound(a as int, b as int);
            assert(0 <= q <= m) by (nonlinear_arith)
                requires m >= 0 && b >= 1 && q == m as int / b as int;
            if rem == 0 {
                assert((-(b as int * q)) == b as int * (-(q as int))) by (nonlinear_arith);
                vstd::arithmetic::div_mod::lemma_div_multiples_vanish(-(q as int), b as int);
            } else {
                // a == b * (-q - 1) + (b - rem) with 0 <= b - rem < b.
                let qq = -(q as int) - 1;
                assert(a as int == b as int * qq + (b - rem)) by (nonlinear_arith)
                    requires
                        m as int == b as int * q + rem && a == -m && qq == -(q as int) - 1;
                assert(b >= 2 && 0 <= q <= m as int / 2) by (nonlinear_arith)
                    requires
                        m >= 0 && b >= 1 && rem != 0 && q == m as int / b as int && rem == m as int % b as int;
                vstd::arithmetic::div_mod::lemma_fundamental_div_mod_converse(
                    a as int,
                    b as int,
                    qq,
                    b as int - rem as int,
                );
                assert(2 * q <= m) by (nonlinear_arith)
                    requires b >= 2 && q >= 0 && b as int * q <= m;
                assert(q as int + 1 <= m);
            }
        }
        if rem == 0 {
            -q
        } else {
            -q - 1
        }
    }
}

/// Ceiling division of a bounded `i128` by a positive divisor.
pub fn ceil_div(a: i128, b: i128) -> (r: i128)
    requires
        1 <= b,
        -0x4000_0000_0000_0000_0000_0000 <= a <= 0x4000_0000_0000_0000_0000_0000,
    ensures
        r == cdiv(a as int, b as int),
        a >= 0 ==> 0 <= r <= a,
        a < 0 ==> a <= r <= 0,
{
    let nf = floor_div(-a, b);
    -nf
}

/// The chosen nice step for the axis `lo ..= hi`: the largest step of the
/// shape 1, 2 or 5 times a power of ten that keeps at least `MIN_TICKS`
/// of its multiples inside the axis.
pub fn choose_step(lo: i128, hi: i128, ) -> (s: i128)
    requires
        -0x2_0000_0000_0000_0000 <= lo,
        hi <= 0x2_0000_0000_0000_0000,
        lo + 3 <= hi,
    ensures
        s == spec_step(lo as int, hi as int),
        s >= 1,
        MIN_TICKS as int <= tick_count(lo as int, hi as int, s as int) <= MAX_TICKS as int,
        2 * s <= hi - lo,
{
    let mut m: i128 = 1;
    let mut p: i128 = 1;
    proof {
        assert(cdiv(lo as int, 1) == lo) by {
            vstd::arithmetic::div_mod::lemma_div_basics(-(lo as int));
        }
        assert(fdiv(hi as int, 1) == hi) by {
            vstd::arithmetic::div_mod::lemma_div_basics(hi as int);
        }
        assert(tick_count(lo as int, hi as int, 1) >= 3);
        lemma_step_from_props(lo as int, hi as int, 1, 1);
    }
    loop
        invariant
            step_args_wf(m as int, p as int),
            -0x2_0000_0000_0000_0000 <= lo,
            hi <= 0x2_0000_0000_0000_0000,
            lo + 3 <= hi,
            m * p <= hi - lo,
            tick_count(lo as int, hi as int, (m * p) as int) >= MIN_TICKS as int,
            step_from(lo as int, hi as int, m as int, p as int) == spec_step(
                lo as int,
                hi as int,
            ),
        decreases hi - lo - m * p,
    {
        proof {
            assert(p <= hi - lo) by (nonlinear_arith)
                requires step_args_wf(m as int, p as int) && m * p <= hi - lo;
        }
        let (nm, np): (i128, i128) = if m == 1 {
            (2, p)
        } else if m == 2 {
            (5, p)
        } else {
            (1, p * 10)
        };
        proof {
            assert((nm * np) as int == step_next(m as int, p as int).0 * step_next(
                m as int,
                p as int,
            ).1 && nm * np <= 5 * (m * p) && nm * np > m * p) by (nonlinear_arith)
                requires
                    step_args_wf(m as int, p as int),
                    (nm as int, np as int) == step_next(m as int, p as int);
        }
        let ns = nm * np;
        let f = floor_div(hi, ns);
        let c = ceil_div(lo, ns);
        if f - c + 1 >= MIN_TICKS {
            proof {
                lemma_count_ge_3_span(lo as int, hi as int, ns as int);
                assert(ns <= hi - lo);
            }
            m = nm;
            p = np;
        } else {
            proof {
                lemma_step_from_props(lo as int, hi as int, m as int, p as int);
                lemma_count_ge_3_span(lo as int, hi as int, (m * p) as int);
            }
            return m * p;
        }
    }
}

/// All multiples of `s` inside `lo ..= hi`, in increasing order. Their
/// count lies in `MIN_TICKS ..= MAX_TICKS` whenever the step was chosen
/// by `choose_step`, and every one is an exact multiple of `s`.
pub fn build_ticks(lo: i128, hi: i128, s: i128) -> (r: Vec<i128>)
    requires
        1 <= s <= hi - lo,
        -0x2_0000_0000_0000_0000 <= lo,
        hi <= 0x2_0000_0000_0000_0000,
        lo < hi,
    ensures
        r@.len() == tick_count(lo as int, hi as int, s as int),
        forall|j: int|
            0 <= j < r@.len() ==> r@[j] == (cdiv(lo as int, s as int) + j) * s,
        forall|j: int| 0 <= j < r@.len() ==> lo <= #[trigger] r@[j] <= hi,
        forall|j: int| 0 <= j < r@.len() ==> (#[trigger] r@[j]) as int % (s as int) == 0,
{
    let c = ceil_div(lo, s);
    let f = floor_div(hi, s);
    proof {
        lemma_fdiv_bounds(hi as int, s as int);
        lemma_cdiv_bounds(lo as int, s as int);
        assert(s as int * c < lo + s);
        assert(s as int * c <= hi);
        assert(c <= f) by (nonlinear_arith)
            requires
                s >= 1 && s as int * c <= hi && hi < s as int * f + s;
    }
    let mut r: Vec<i128> = Vec::new();
    let mut t: i128 = c;
    while t <= f
        invariant
            c <= t,
            t <= f + 1,
            c == cdiv(lo as int, s as int),
            f == fdiv(hi as int, s as int),
            1 <= s <= hi - lo,
            -0x2_0000_0000_0000_0000 <= lo,
            hi <= 0x2_0000_0000_0000_0000,
            lo < hi,
            s * f <= hi,
            s * c >= lo,
            r@.len() == t - c,
            forall|j: int| 0 <= j < r@.len() ==> r@[j] == (c + j) * s,
        decreases f + 1 - t,
    {
        proof {
            assert(lo <= t * s <= hi) by (nonlinear_arith)
                requires s >= 1 && c <= t <= f && s * f <= hi && s * c >= lo;
        }
        r.push(t * s);
        t += 1;
    }
    proof {
        assert forall|j: int| 0 <= j < r@.len() implies lo <= #[trigger] r@[j] <= hi by {
            assert(r@[j] == (c + j) * s);
            assert(lo <= (c + j) * s <= hi) by (nonlinear_arith)
                requires
                    s >= 1 && c <= c + j <= f && s * f <= hi && s * c >= lo;
        }
        assert forall|j: int| 0 <= j < r@.len() implies (#[trigger] r@[j]) as int % (s as int)
            == 0 by {
            assert(r@[j] == (c + j) * s);
            assert(((c + j) * s) as int % (s as int) == 0) by (nonlinear_arith)
                requires s >= 1;
        }
    }
    r
}


/// The tick law: on any axis with a proper span the chosen nice step
/// keeps the tick count within `MIN_TICKS ..= MAX_TICKS`, and every tick
/// value is an exact multiple of the step lying inside the axis.
pub proof fn lemma_nice_ticks(lo: int, hi: int)
    requires
        lo + 3 <= hi,
    ensures
        spec_step(lo, hi) >= 1,
        MIN_TICKS as int <= tick_count(lo, hi, spec_step(lo, hi)) <= MAX_TICKS as int,
        forall|j: int|
            0 <= j < tick_count(lo, hi, spec_step(lo, hi)) ==> ((cdiv(lo, spec_step(lo, hi)) + j)
                * spec_step(lo, hi)) % spec_step(lo, hi) == 0 && lo <= #[trigger] ((cdiv(
                lo,
                spec_step(lo, hi),
            ) + j) * spec_step(lo, hi)) <= hi,
{
    vstd::arithmetic::div_mod::lemma_div_basics(hi);
    vstd::arithmetic::div_mod::lemma_div_basics(-lo);
    assert(tick_count(lo, hi, 1) >= 3);
    lemma_step_from_props(lo, hi, 1, 1);
    let st = spec_step(lo, hi);
    let c = cdiv(lo, st);
    let f = fdiv(hi, st);
    lemma_fdiv_bounds(hi, st);
    lemma_cdiv_bounds(lo, st);
    assert forall|j: int| 0 <= j < tick_count(lo, hi, st) implies ((c + j) * st) % st == 0 && lo
        <= #[trigger] ((c + j) * st) <= hi by {
        let tv = (c + j) * st;
        assert(tv % st == 0) by (nonlinear_arith)
            requires st >= 1 && tv == (c + j) * st;
        assert(lo <= tv <= hi) by (nonlinear_arith)
            requires st >= 1 && c <= c + j <= f && st * f <= hi && st * c >= lo && tv == (c + j)
                * st;
    }
}

} // verus!
