use vstd::prelude::*;

verus! {

/// The `n`-th triangular number, `n * (n + 1) / 2`.
pub open spec fn triangle(n: int) -> int {
    n * (n + 1) / 2
}

/// The Cantor pairing of two naturals: `(n + m) * (n + m + 1) / 2 + m`.
pub open spec fn cantor(n: int, m: int) -> int {
    triangle(n + m) + m
}

/// Whether the pairing of `n` and `m` can be computed in a `usize`.
pub open spec fn cantor_fits(n: usize, m: usize) -> bool {
    cantor(n as int, m as int) <= usize::MAX
}

proof fn lemma_triangle_step(s: int)
    requires
        s >= 0,
    ensures
        triangle(s + 1) == triangle(s) + s + 1,
        triangle(s) >= 0,
{
    assert((s + 1) * (s + 2) == s * (s + 1) + 2 * (s + 1)) by (nonlinear_arith);
    assert(s * (s + 1) >= 0) by (nonlinear_arith)
        requires
            s >= 0,
    ;
    let a = s * (s + 1);
    assert((a + 2 * (s + 1)) / 2 == a / 2 + s + 1);
}

proof fn lemma_triangle_mono(a: int, b: int)
    requires
        0 <= a < b,
    ensures
        triangle(b) >= triangle(a) + a + 1,
    decreases b - a,
{
    lemma_triangle_step(a);
    if b > a + 1 {
        lemma_triangle_mono(a + 1, b);
        lemma_triangle_step(a + 1);
    }
}

/// Cantor pairing is injective: two pairs of naturals with the same pairing
/// are the same pair.
pub proof fn lemma_cantor_injective(n1: int, m1: int, n2: int, m2: int)
    requires
        n1 >= 0,
        m1 >= 0,
        n2 >= 0,
        m2 >= 0,
        cantor(n1, m1) == cantor(n2, m2),
    ensures
        n1 == n2,
        m1 == m2,
{
    let s1 = n1 + m1;
    let s2 = n2 + m2;
    if s1 < s2 {
        lemma_triangle_mono(s1, s2);
    } else if s2 < s1 {
        lemma_triangle_mono(s2, s1);
    }
}

proof fn lemma_triangle_halves(s: int)
    requires
        s >= 0,
    ensures
        s % 2 == 0 ==> (s / 2) * (s + 1) == triangle(s),
        s % 2 == 1 ==> s * ((s + 1) / 2) == triangle(s),
        triangle(s) >= s,
        s >= 2 ==> triangle(s) >= s + 1,
{
    let k = s / 2;
    if s % 2 == 0 {
        assert(s == 2 * k);
        assert(k * (s + 1) * 2 == s * (s + 1)) by (nonlinear_arith)
            requires
                s == 2 * k,
        ;
    } else {
        assert(s == 2 * k + 1);
        assert((s + 1) / 2 == k + 1);
        assert(s * (k + 1) * 2 == s * (s + 1)) by (nonlinear_arith)
            requires
                s == 2 * k + 1,
        ;
    }
    assert(s * (s + 1) >= 2 * s) by (nonlinear_arith)
        requires
            s >= 0,
    ;
    assert(s >= 2 ==> s * (s + 1) >= 2 * (s + 1)) by (nonlinear_arith)
        requires
            s >= 0,
    ;
}

/// Computes the Cantor pairing of `n` and `m`.
pub fn cantor_pair(n: usize, m: usize) -> (res: usize)
    requires
        cantor_fits(n, m),
    ensures
        res == cantor(n as int, m as int),
{
    proof {
        lemma_triangle_halves(n + m);
    }
    let s = n + m;
    let t = if s % 2 == 0 {
        proof {
            assert(s / 2 * (s + 1) == triangle(s as int));
        }
        (s / 2) * (s + 1)
    } else {
        proof {
            assert(s * ((s + 1) / 2) == triangle(s as int));
        }
        s * ((s + 1) / 2)
    };
    t + m
}


proof fn lemma_triangle_exact(w: int)
    requires
        w >= 0,
    ensures
        w * (w + 1) == 2 * triangle(w),
    decreases w,
{
    if w > 0 {
        lemma_triangle_exact(w - 1);
        lemma_triangle_step(w - 1);
        let a = (w - 1) * (w - 1 + 1);
        assert(a == 2 * triangle(w - 1));
        assert(triangle(w) == triangle(w - 1) + w);
        assert(w * (w + 1) == a + 2 * w) by (nonlinear_arith)
            requires
                a == (w - 1) * (w - 1 + 1),
        ;
    } else {
        assert(triangle(0) == 0);
    }
}

fn triangle_u128(w: u128) -> (res: u128)
    requires
        w < 0x1_0000_0000_0000_0000,
    ensures
        res == triangle(w as int),
{
    proof {
        lemma_triangle_exact(w as int);
        assert(w * (w + 1) <= 0xffff_ffff_ffff_ffff * 0x1_0000_0000_0000_0000) by (nonlinear_arith)
            requires
                w < 0x1_0000_0000_0000_0000,
        ;
    }
    let p = w * (w + 1);
    assert(p == 2 * triangle(w as int));
    assert(p / 2 == triangle(w as int));
    p / 2
}

/// The pair whose Cantor pairing is `z`: `w` is the largest number whose
/// triangular number is at most `z`, the second member is what `z` exceeds
/// that triangular number by, and the two members add up to `w`. Computed
/// with integers only.
pub fn cantor_unpair(z: usize) -> (res: (usize, usize))
    ensures
        cantor(res.0 as int, res.1 as int) == z,
{
    let zz = z as u128;
    let mut lo: u128 = 0;
    let mut hi: u128 = zz + 1;
    proof {
        lemma_triangle_halves(hi as int);
        lemma_triangle_step(zz as int);
    }
    while hi - lo > 1
        invariant
            zz == z,
            lo < hi <= zz + 1,
            triangle(lo as int) <= zz,
            zz < triangle(hi as int),
        decreases hi - lo,
    {
        let mid = lo + (hi - lo) / 2;
        if triangle_u128(mid) <= zz {
            lo = mid;
        } else {
            hi = mid;
        }
    }
    assert(hi == lo + 1);
    proof {
        lemma_triangle_step(lo as int);
    }
    let t = triangle_u128(lo);
    let m = zz - t;
    let n = lo - m;
    assert(cantor(n as int, m as int) == z);
    (n as usize, m as usize)
}

/// Unpairing undoes pairing: the pair whose pairing is the pairing of `n`
/// and `m` is `n` and `m`.
pub proof fn law_unpair_pair(n: usize, m: usize, res: (usize, usize))
    requires
        cantor_fits(n, m),
        cantor(res.0 as int, res.1 as int) == cantor(n as int, m as int),
    ensures
        res == (n, m),
{
    lemma_cantor_injective(res.0 as int, res.1 as int, n as int, m as int);
}


/// The Cantor pairing of `n` and `m`, or `None` when it does not fit in a
/// `usize`.
pub fn cantor_checked(n: usize, m: usize) -> (res: Option<usize>)
    ensures
        res is Some <==> cantor_fits(n, m),
        res matches Some(c) ==> c == cantor(n as int, m as int),
{
    proof {
        lemma_triangle_halves(n + m);
    }
    let s: u128 = n as u128 + m as u128;
    let (a, b): (u128, u128) = if s % 2 == 0 {
        (s / 2, s + 1)
    } else {
        (s, (s + 1) / 2)
    };
    assert(a * b == triangle(s as int));
    match a.checked_mul(b) {
        None => None,
        Some(t) => match t.checked_add(m as u128) {
            None => None,
            Some(c) => if c <= usize::MAX as u128 {
                Some(cantor_pair(n, m))
            } else {
                None
            },
        },
    }
}

} // verus!
