use vstd::prelude::*;

verus! {

/// State `(x, error)` of the midpoint circle walk of radius `r` after `k` steps;
/// step `k` visits the first-octant point `(x, k)`.
pub open spec fn midpoint_state(r: int, k: nat) -> (int, int)
    decreases k,
{
    if k == 0 {
        (r, 1 - r)
    } else {
        let prev = midpoint_state(r, (k - 1) as nat);
        let y = k as int;
        if prev.1 < 0 {
            (prev.0, prev.1 + 2 * y + 1)
        } else {
            (prev.0 - 1, prev.1 + 2 * (y - (prev.0 - 1)) + 1)
        }
    }
}

/// The first-octant `x` of the midpoint walk at row offset `k`.
pub open spec fn midpoint_x(r: int, k: int) -> int {
    midpoint_state(r, k as nat).0
}

/// Offsets `(a, b)` (both non-negative) from the center that the midpoint outline of radius
/// `r` covers, using its eight-fold symmetry.
pub open spec fn circle_outline_offset(a: int, b: int, r: int) -> bool {
    ||| (b <= midpoint_x(r, b) && a == midpoint_x(r, b))
    ||| (a <= midpoint_x(r, a) && b == midpoint_x(r, a))
}

/// Offsets `(a, b)` (both non-negative) from the center that the filled midpoint disk of
/// radius `r` covers.
pub open spec fn circle_disk_offset(a: int, b: int, r: int) -> bool {
    ||| (b <= midpoint_x(r, b) && a <= midpoint_x(r, b))
    ||| (a <= midpoint_x(r, a) && b <= midpoint_x(r, a))
}

pub open spec fn iabs(v: int) -> int {
    if v < 0 {
        -v
    } else {
        v
    }
}

/// Facts that hold at every step of the walk.
pub proof fn lemma_midpoint_facts(r: int, k: nat)
    requires
        r >= 0,
    ensures
        ({
            let (x, e) = midpoint_state(r, k);
            let kk = k as int;
            &&& x <= r
            &&& x >= r - kk
            &&& e == x * x - x + (kk + 1) * (kk + 1) - r * r
            &&& x * x + x + kk * kk >= r * r
            &&& e >= -2 * x
        }),
    decreases k,
{
    if k == 0 {
        assert(r * r - r + 1 - r * r == 1 - r) by (nonlinear_arith);
    } else {
        lemma_midpoint_facts(r, (k - 1) as nat);
        let (px, pe) = midpoint_state(r, (k - 1) as nat);
        let km = (k - 1) as int;
        assert(pe == px * px - px + (km + 1) * (km + 1) - r * r);
        assert(px * px + px + km * km >= r * r);
        if pe < 0 {
            assert(pe + 2 * (km + 1) + 1 == px * px - px + (km + 2) * (km + 2) - r * r) by (
            nonlinear_arith)
                requires
                    pe == px * px - px + (km + 1) * (km + 1) - r * r,
            ;
            assert(px * px + px + (km + 1) * (km + 1) >= r * r) by (nonlinear_arith)
                requires
                    px * px + px + km * km >= r * r,
                    km >= 0,
            ;
        } else {
            let nx = px - 1;
            assert(pe + 2 * ((km + 1) - nx) + 1 == nx * nx - nx + (km + 2) * (km + 2) - r * r) by (
            nonlinear_arith)
                requires
                    pe == px * px - px + (km + 1) * (km + 1) - r * r,
                    nx == px - 1,
            ;
            assert(nx * nx + nx + (km + 1) * (km + 1) >= r * r) by (nonlinear_arith)
                requires
                    pe == px * px - px + (km + 1) * (km + 1) - r * r,
                    pe >= 0,
                    nx == px - 1,
            ;
        }
    }
}

/// Once the walk leaves the first octant it never comes back.
pub proof fn lemma_midpoint_leaves_octant(r: int, k: nat, j: nat)
    requires
        k <= j,
        midpoint_x(r, k as int) < k,
    ensures
        midpoint_x(r, j as int) < j,
    decreases j - k,
{
    if k < j {
        lemma_midpoint_leaves_octant(r, k, (j - 1) as nat);
    }
}

/// Every first-octant point of a positive radius is at least half the radius away
/// along its major axis.
pub proof fn lemma_midpoint_octant_far(r: int, k: nat)
    requires
        r >= 1,
        midpoint_x(r, k as int) >= k,
    ensures
        2 * midpoint_x(r, k as int) >= r,
        midpoint_x(r, k as int) <= r,
{
    lemma_midpoint_facts(r, k);
    let x = midpoint_x(r, k as int);
    let kk = k as int;
    assert(2 * x >= r) by (nonlinear_arith)
        requires
            x * x + x + kk * kk >= r * r,
            x >= kk,
            kk >= 0,
            r >= 1,
    {
        if 2 * x < r {
            assert(kk * kk <= x * x);
            assert(2 * x * x + x >= r * r);
            assert(x * (2 * x + 1) <= x * r);
            assert(x * r < r * r);
        }
    }
}

/// The walk's `x` never increases and drops by at most one per step, while `x - k`
/// strictly decreases.
pub proof fn lemma_midpoint_monotone(r: int, j: nat, k: nat)
    requires
        j <= k,
    ensures
        midpoint_x(r, k as int) <= midpoint_x(r, j as int),
        midpoint_x(r, k as int) >= midpoint_x(r, j as int) - (k - j),
        j < k ==> midpoint_x(r, k as int) - k < midpoint_x(r, j as int) - j,
    decreases k - j,
{
    if j < k {
        lemma_midpoint_monotone(r, j, (k - 1) as nat);
    }
}

/// Every lattice offset inside the true circle belongs to the midpoint disk.
pub proof fn lemma_disk_contains_inner_points(a: int, b: int, r: int)
    requires
        r >= 0,
        a >= 0,
        b >= 0,
        a * a + b * b <= r * r,
    ensures
        circle_disk_offset(a, b, r),
{
    assert(a <= r && b <= r) by (nonlinear_arith)
        requires
            a >= 0,
            b >= 0,
            r >= 0,
            a * a + b * b <= r * r,
    {
        if a > r {
            assert(a * a > r * r);
        }
        if b > r {
            assert(b * b > r * r);
        }
    }
    let xb = midpoint_x(r, b);
    let xa = midpoint_x(r, a);
    lemma_midpoint_facts(r, b as nat);
    lemma_midpoint_facts(r, a as nat);
    if b <= xb {
        assert(a <= xb) by (nonlinear_arith)
            requires
                xb * xb + xb + b * b >= r * r,
                a * a + b * b <= r * r,
                a >= 0,
                xb >= 0,
        {
            if a > xb {
                assert(a * a >= (xb + 1) * (xb + 1));
            }
        }
    } else if a <= xa {
        assert(b <= xa) by (nonlinear_arith)
            requires
                xa * xa + xa + a * a >= r * r,
                a * a + b * b <= r * r,
                b >= 0,
                xa >= 0,
        {
            if b > xa {
                assert(b * b >= (xa + 1) * (xa + 1));
            }
        }
    } else {
        let m = if a <= b { a } else { b };
        let xm = midpoint_x(r, m);
        lemma_midpoint_facts(r, m as nat);
        assert(xm < m);
        assert(xm >= 0);
        assert(false) by (nonlinear_arith)
            requires
                xm * xm + xm + m * m >= r * r,
                0 <= xm < m,
                a * a + b * b <= r * r,
                m <= a,
                m <= b,
                m >= 0,
        {
            assert(xm * xm + xm <= (m - 1) * (m - 1) + (m - 1));
            assert(m * m <= a * a);
            assert(m * m <= b * b);
        }
    }
}

} // verus!
