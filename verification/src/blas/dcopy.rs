//! Copying a vector with strides.

use crate::array::{FortranArray, Grid};
use vstd::prelude::*;

verus! {

/// The index of the first element of a vector of `n` elements that is
/// walked with the increment `inc`: a vector walked backward starts at its
/// far end.
pub open spec fn start_index(n: int, inc: int) -> int {
    if inc < 0 {
        (1 - n) * inc + 1
    } else {
        1
    }
}

/// `dy` after `left` elements are copied from `dx`, one after the other,
/// from the index `ix` with steps of `incx` to the index `iy` with steps of
/// `incy`.
pub open spec fn copied(
    dy: Grid,
    dx: Grid,
    ix: int,
    incx: int,
    iy: int,
    incy: int,
    left: nat,
) -> Grid
    decreases left,
{
    if left == 0 {
        dy
    } else {
        copied(dy.set(iy, dx.get(ix)), dx, ix + incx, incx, iy + incy, incy, (left - 1) as nat)
    }
}

/// What [`dcopy`] leaves in `dy`.
pub open spec fn dcopy_spec(n: int, dx: Grid, incx: int, dy: Grid, incy: int) -> Grid {
    if n <= 0 {
        dy
    } else {
        copied(dy, dx, start_index(n, incx), incx, start_index(n, incy), incy, n as nat)
    }
}

/// Copies `n` elements of `dx`, `incx` apart, to elements of `dy` that are
/// `incy` apart. A negative increment walks its vector backward.
pub fn dcopy(n: i32, dx: &FortranArray, incx: i32, dy: &mut FortranArray, incy: i32)
    ensures
        final(dy)@ == dcopy_spec(n as int, dx@, incx as int, old(dy)@, incy as int),
{
    if n <= 0 {
        return;
    }
    let mut ix: i64 = first_index(n, incx);
    let mut iy: i64 = first_index(n, incy);
    let ghost total = dcopy_spec(n as int, dx@, incx as int, dy@, incy as int);
    let ghost x0 = ix;
    let ghost y0 = iy;
    let mut t: i32 = 0;
    while t < n
        invariant
            0 <= t <= n,
            ix == x0 + t * incx,
            iy == y0 + t * incy,
            x0 == start_index(n as int, incx as int),
            y0 == start_index(n as int, incy as int),
            copied(dy@, dx@, ix as int, incx as int, iy as int, incy as int, (n - t) as nat)
                == total,
        decreases n - t,
    {
        proof {
            lemma_walk_bounds(n as int, incx as int, t as int);
            lemma_walk_bounds(n as int, incy as int, t as int);
            lemma_walk_bounds(n as int, incx as int, t + 1);
            lemma_walk_bounds(n as int, incy as int, t + 1);
            assert((t + 1) * incx == t * incx + incx) by (nonlinear_arith);
            assert((t + 1) * incy == t * incy + incy) by (nonlinear_arith);
        }
        let v = dx.get_wide(ix);
        dy.set_wide(iy, v);
        ix = ix + incx as i64;
        iy = iy + incy as i64;
        t = t + 1;
    }
}

/// The index of the first element of a vector of `n` elements that is
/// walked with the increment `inc`.
pub fn first_index(n: i32, inc: i32) -> (r: i64)
    requires
        n >= 1,
    ensures
        r == start_index(n as int, inc as int),
{
    if inc < 0 {
        proof {
            lemma_walk_bounds(n as int, inc as int, 0);
            assert((1 - n) * inc >= 0 && (1 - n) * inc <= 0x8000_0000 * 0x8000_0000)
                by (nonlinear_arith)
                requires
                    -0x8000_0000 <= inc < 0,
                    1 <= n <= 0x7fff_ffff,
            ;
        }
        (1 - n as i64) * (inc as i64) + 1
    } else {
        1
    }
}

/// Every index of a walk of `n` steps fits in 64 bits.
proof fn lemma_walk_bounds(n: int, inc: int, t: int)
    requires
        1 <= n <= i32::MAX,
        i32::MIN <= inc <= i32::MAX,
        0 <= t <= n,
    ensures
        -0x4000_0000_0000_0000 <= start_index(n, inc) + t * inc <= 0x4000_0000_0000_0001,
{
    assert(-0x8000_0000 * 0x8000_0000 <= t * inc <= 0x8000_0000 * 0x8000_0000)
        by (nonlinear_arith)
        requires
            0 <= t <= 0x7fff_ffff,
            -0x8000_0000 <= inc <= 0x7fff_ffff,
    ;
    if inc < 0 {
        let c = 1 - n + t;
        assert((1 - n) * inc + t * inc == c * inc) by (nonlinear_arith)
            requires
                c == 1 - n + t,
        ;
        assert(-0x8000_0000 <= c * inc <= 0x8000_0000 * 0x8000_0000) by (nonlinear_arith)
            requires
                -0x7fff_ffff <= c <= 1,
                -0x8000_0000 <= inc < 0,
        ;
    }
}

/// With a step other than zero in `dy`, the copy puts element number `t` of
/// the walk through `dx` into element number `t` of the walk through `dy`,
/// if `dy` has such an element.
pub proof fn lemma_dcopy_element(n: int, dx: Grid, incx: int, dy: Grid, incy: int, t: int)
    requires
        incy != 0,
        0 <= t < n,
    ensures
        ({
            let at = start_index(n, incy) + t * incy;
            dcopy_spec(n, dx, incx, dy, incy).get(at) == (if dy.within(at - 1) {
                dx.get(start_index(n, incx) + t * incx)
            } else {
                dy.get(at)
            })
        }),
{
    lemma_copied(dy, dx, start_index(n, incx), incx, start_index(n, incy), incy, n as nat,
        start_index(n, incy) + t * incy);
    assert(exists|s: int| 0 <= s < n && start_index(n, incy) + t * incy == start_index(n, incy)
        + #[trigger] (s * incy));
    let s = choose|s: int| 0 <= s < n && start_index(n, incy) + t * incy == start_index(n, incy)
        + #[trigger] (s * incy);
    assert(s == t) by (nonlinear_arith)
        requires
            s * incy == t * incy,
            incy != 0,
    ;
}

/// The copy leaves alone every element of `dy` that the walk through `dy`
/// does not reach.
pub proof fn lemma_dcopy_elsewhere(n: int, dx: Grid, incx: int, dy: Grid, incy: int, at: int)
    requires
        forall|s: int| 0 <= s < n ==> at != start_index(n, incy) + #[trigger] (s * incy),
    ensures
        dcopy_spec(n, dx, incx, dy, incy).get(at) == dy.get(at),
        dcopy_spec(n, dx, incx, dy, incy).cells.len() == dy.cells.len(),
{
    if n > 0 {
        lemma_copied(dy, dx, start_index(n, incx), incx, start_index(n, incy), incy, n as nat, at);
    }
}

/// What a copy of `left` elements leaves at the index `at`: the element of
/// `dx` for the last step that reaches `at`, or what stood there.
proof fn lemma_copied(
    dy: Grid,
    dx: Grid,
    ix: int,
    incx: int,
    iy: int,
    incy: int,
    left: nat,
    at: int,
)
    ensures
        copied(dy, dx, ix, incx, iy, incy, left).cells.len() == dy.cells.len(),
        (forall|s: int| 0 <= s < left ==> at != iy + #[trigger] (s * incy)) ==> copied(
            dy,
            dx,
            ix,
            incx,
            iy,
            incy,
            left,
        ).get(at) == dy.get(at),
        incy != 0 ==> forall|s: int|
            0 <= s < left && at == iy + #[trigger] (s * incy) ==> copied(
                dy,
                dx,
                ix,
                incx,
                iy,
                incy,
                left,
            ).get(at) == (if dy.within(at - 1) {
                dx.get(ix + s * incx)
            } else {
                dy.get(at)
            }),
    decreases left,
{
    if left > 0 {
        let dy1 = dy.set(iy, dx.get(ix));
        lemma_copied(dy1, dx, ix + incx, incx, iy + incy, incy, (left - 1) as nat, at);
        let r = copied(dy, dx, ix, incx, iy, incy, left);
        assert(r == copied(dy1, dx, ix + incx, incx, iy + incy, incy, (left - 1) as nat));
        if forall|s: int| 0 <= s < left ==> at != iy + #[trigger] (s * incy) {
            assert(at != iy + 0 * incy);
            assert forall|s: int| 0 <= s < left - 1 implies at != iy + incy + #[trigger] (s
                * incy) by {
                assert((s + 1) * incy == s * incy + incy) by (nonlinear_arith);
                assert(at != iy + (s + 1) * incy);
            }
        }
        if incy != 0 {
            assert forall|s: int| 0 <= s < left && at == iy + #[trigger] (s * incy) implies r.get(
                at,
            ) == (if dy.within(at - 1) {
                dx.get(ix + s * incx)
            } else {
                dy.get(at)
            }) by {
                if s == 0 {
                    assert(at == iy);
                    assert forall|u: int| 0 <= u < left - 1 implies at != iy + incy + #[trigger] (u
                        * incy) by {
                        assert((u + 1) * incy != 0) by (nonlinear_arith)
                            requires
                                u >= 0,
                                incy != 0,
                        ;
                        assert((u + 1) * incy == u * incy + incy) by (nonlinear_arith);
                    }
                } else {
                    assert((s - 1) * incy == s * incy - incy) by (nonlinear_arith);
                    assert((s - 1) * incx == s * incx - incx) by (nonlinear_arith);
                    assert(at == iy + incy + (s - 1) * incy);
                    assert(at != iy) by (nonlinear_arith)
                        requires
                            at == iy + s * incy,
                            s > 0,
                            incy != 0,
                    ;
                }
            }
        }
    }
}

} // verus!
