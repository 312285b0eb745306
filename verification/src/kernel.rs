//! Escape-time kernel.
//!
//! A point `c = (cx, cy)` of the plane is iterated through `z <- z * z + c`
//! starting from `z = 0`.  The escape count is the number of completed
//! iterations before the squared magnitude of `z` first exceeds `4`, capped
//! at the iteration bound; a count equal to the bound marks a presumed
//! interior point.  All arithmetic is fixed-point (see `fixed`), and the
//! spec-level orbit pins the exec loop value for value.

use vstd::prelude::*;

use crate::fixed::FIXED_ONE;
use crate::fixed::fmul;
use crate::fixed::fmul_spec;
use crate::fixed::lemma_fmul_bounded;
use crate::fixed::lemma_fmul_square_nonneg;
use crate::fixed::lemma_fmul_square_small;

verus! {

/// The escape threshold `4.0` in fixed-point form.
pub const ESCAPE_THRESHOLD: i64 = 4_000_000;

/// Largest coordinate magnitude the kernel accepts; sampled plane points
/// always stay within it.
pub const COORD_LIMIT: i64 = 1_500_000_000_000;

/// Real part of one iteration step: `zx * zx - zy * zy + cx`.
pub open spec fn step_re_spec(zx: int, zy: int, cx: int) -> int {
    fmul_spec(zx, zx) - fmul_spec(zy, zy) + cx
}

/// Imaginary part of one iteration step: `2 * zx * zy + cy`.
pub open spec fn step_im_spec(zx: int, zy: int, cy: int) -> int {
    fmul_spec(2 * zx, zy) + cy
}

/// Squared magnitude of `z` in fixed-point form.
pub open spec fn norm_sq_spec(zx: int, zy: int) -> int {
    fmul_spec(zx, zx) + fmul_spec(zy, zy)
}

/// The orbit of the origin under `z <- z * z + c`: the value of `z` after
/// `n` iteration steps.
pub open spec fn orbit(cx: int, cy: int, n: nat) -> (int, int)
    decreases n,
{
    if n == 0 {
        (0, 0)
    } else {
        let z = orbit(cx, cy, (n - 1) as nat);
        (step_re_spec(z.0, z.1, cx), step_im_spec(z.0, z.1, cy))
    }
}

/// Whether the orbit point after `k` iteration steps lies outside the
/// escape threshold.
pub open spec fn escapes_at(cx: int, cy: int, k: nat) -> bool {
    norm_sq_spec(orbit(cx, cy, k).0, orbit(cx, cy, k).1) > ESCAPE_THRESHOLD
}

/// The escape count searched from iteration `i` on: the least `k` with
/// `i <= k < bound` whose next orbit point escapes, or `bound` if none does.
pub open spec fn escape_from(cx: int, cy: int, i: nat, bound: nat) -> nat
    decreases bound - i,
{
    if i >= bound {
        bound
    } else if escapes_at(cx, cy, i + 1) {
        i
    } else {
        escape_from(cx, cy, i + 1, bound)
    }
}

/// The escape count of `c` under the given iteration bound.
pub open spec fn escape_count_spec(cx: int, cy: int, bound: nat) -> nat {
    escape_from(cx, cy, 0, bound)
}

/// The escape count never exceeds the bound.
pub proof fn lemma_escape_from_le_bound(cx: int, cy: int, i: nat, bound: nat)
    ensures
        i <= bound ==> i <= escape_from(cx, cy, i, bound) <= bound,
    decreases bound - i,
{
    if i < bound {
        lemma_escape_from_le_bound(cx, cy, i + 1, bound);
    }
}

/// Counts the iterations of `z <- z * z + c` before the squared magnitude
/// of `z` exceeds `4`, capped at `bound`.  A result equal to `bound` marks
/// a presumed interior point.
pub fn escape_count(cx: i64, cy: i64, bound: usize) -> (count: usize)
    requires
        -COORD_LIMIT <= cx <= COORD_LIMIT,
        -COORD_LIMIT <= cy <= COORD_LIMIT,
    ensures
        count == escape_count_spec(cx as int, cy as int, bound as nat),
        count <= bound,
        forall|k: nat| 1 <= k <= count ==> !#[trigger] escapes_at(cx as int, cy as int, k),
        count < bound ==> escapes_at(cx as int, cy as int, (count + 1) as nat),
{
    let ghost ci = cx as int;
    let ghost cj = cy as int;
    let mut zx: i64 = 0;
    let mut zy: i64 = 0;
    let mut i: usize = 0;
    proof {
        lemma_escape_from_le_bound(ci, cj, 0, bound as nat);
    }
    while i < bound
        invariant
            -COORD_LIMIT <= cx <= COORD_LIMIT,
            -COORD_LIMIT <= cy <= COORD_LIMIT,
            ci == cx as int,
            cj == cy as int,
            0 <= i <= bound,
            (zx as int, zy as int) == orbit(ci, cj, i as nat),
            -2 * FIXED_ONE <= zx <= 2 * FIXED_ONE,
            -2 * FIXED_ONE <= zy <= 2 * FIXED_ONE,
            escape_from(ci, cj, i as nat, bound as nat) == escape_count_spec(ci, cj, bound as nat),
            forall|k: nat| 1 <= k <= i ==> !#[trigger] escapes_at(ci, cj, k),
        decreases bound - i,
    {
        let t_re = fmul(zx, zx);
        let t_im = fmul(zy, zy);
        proof {
            lemma_fmul_square_nonneg(zx as int);
            lemma_fmul_square_nonneg(zy as int);
            lemma_fmul_bounded(zx as int, zx as int, 2_000_000, 2_000_000, 4_000_000);
            lemma_fmul_bounded(zy as int, zy as int, 2_000_000, 2_000_000, 4_000_000);
            lemma_fmul_bounded(2 * zx as int, zy as int, 4_000_000, 2_000_000, 8_000_000);
        }
        let t_mix = fmul(2 * zx, zy);
        let nx = t_re - t_im + cx;
        let ny = t_mix + cy;
        proof {
            lemma_fmul_square_nonneg(nx as int);
            lemma_fmul_square_nonneg(ny as int);
            lemma_fmul_bounded(
                nx as int,
                nx as int,
                2_000_000_000_000,
                2_000_000_000_000,
                4_000_000_000_000_000_000,
            );
            lemma_fmul_bounded(
                ny as int,
                ny as int,
                2_000_000_000_000,
                2_000_000_000_000,
                4_000_000_000_000_000_000,
            );
        }
        let n_re = fmul(nx, nx);
        let n_im = fmul(ny, ny);
        assert((nx as int, ny as int) == orbit(ci, cj, (i + 1) as nat));
        if n_re + n_im > ESCAPE_THRESHOLD {
            assert(escape_from(ci, cj, i as nat, bound as nat) == i as nat);
            return i;
        }
        proof {
            lemma_fmul_square_small(nx as int);
            lemma_fmul_square_small(ny as int);
        }
        zx = nx;
        zy = ny;
        i = i + 1;
    }
    i
}

/// A point whose own squared magnitude already exceeds the threshold
/// escapes before completing a single iteration.
pub proof fn lemma_immediate_escape(cx: int, cy: int, bound: nat)
    requires
        norm_sq_spec(cx, cy) > ESCAPE_THRESHOLD,
        bound >= 1,
    ensures
        escape_count_spec(cx, cy, bound) == 0,
{
    reveal_with_fuel(orbit, 2);
    assert(fmul_spec(0, 0) == 0) by {
        vstd::arithmetic::div_mod::lemma_div_of0(FIXED_ONE as int);
    }
    assert(orbit(cx, cy, 1) == (cx, cy));
}

/// The orbit of the origin point `c = (0, 0)` stays at the origin.
pub proof fn lemma_origin_orbit(n: nat)
    ensures
        orbit(0, 0, n) == (0int, 0int),
    decreases n,
{
    if n > 0 {
        lemma_origin_orbit((n - 1) as nat);
        vstd::arithmetic::div_mod::lemma_div_of0(FIXED_ONE as int);
    }
}

/// The origin never escapes: its escape count equals the iteration bound.
pub proof fn lemma_interior_origin(bound: nat)
    ensures
        escape_count_spec(0, 0, bound) == bound,
{
    lemma_origin_never_escapes(0, bound);
}

proof fn lemma_origin_never_escapes(i: nat, bound: nat)
    ensures
        escape_from(0, 0, i, bound) == bound,
    decreases bound - i,
{
    if i < bound {
        lemma_origin_orbit(i + 1);
        vstd::arithmetic::div_mod::lemma_div_of0(FIXED_ONE as int);
        lemma_origin_never_escapes(i + 1, bound);
    }
}

} // verus!
