//! Two small arithmetic routines, verified end to end.

use vstd::prelude::*;

verus! {

/// The sum of the integers from 1 through `n`.
pub open spec fn spec_tri(n: int) -> int
    decreases n,
{
    if n <= 0 {
        0
    } else {
        spec_tri(n - 1) + n
    }
}

/// The closed form of the triangular sum.
proof fn lemma_tri_quad(n: int)
    requires
        n >= 0,
    ensures
        2 * spec_tri(n) == n * (n + 1),
        spec_tri(n) >= 0,
    decreases n,
{
    if n > 0 {
        lemma_tri_quad(n - 1);
        assert(2 * spec_tri(n) == n * (n + 1)) by (nonlinear_arith)
            requires
                2 * spec_tri(n - 1) == (n - 1) * n,
                spec_tri(n) == spec_tri(n - 1) + n,
        ;
    }
}

/// Returns the answer it has always returned.
pub fn calcular() -> (r: i32)
    ensures
        r == 42,
{
    42
}

/// Sums the integers from 1 through 10 with a loop.
pub fn procesar() -> (r: i32)
    ensures
        r == 55,
{
    let mut suma: i32 = 0;
    let mut i: i32 = 1;
    while i <= 10
        invariant
            1 <= i <= 11,
            suma == spec_tri(i - 1),
        decreases 11 - i,
    {
        proof {
            lemma_tri_quad(i as int);
            assert(spec_tri(i as int) <= 55) by (nonlinear_arith)
                requires
                    2 * spec_tri(i as int) == i * (i + 1),
                    1 <= i <= 10,
            ;
            assert(suma + i == spec_tri(i as int));
        }
        suma = suma + i;
        i = i + 1;
    }
    proof {
        reveal_with_fuel(spec_tri, 11);
        assert(spec_tri(10) == 55);
    }
    suma
}

} // verus!
