//! Exact integer square roots of matrix lengths.

use vstd::prelude::*;

verus! {

/// The number of cells of a square matrix of side `s`.
pub open spec fn square(s: nat) -> nat {
    s * s
}

/// `n` is the length of a square matrix.
pub open spec fn is_square(n: nat) -> bool {
    exists|s: nat| #[trigger] square(s) == n
}

/// The side of a square matrix of `n` cells.
pub open spec fn side(n: nat) -> nat {
    choose|s: nat| #[trigger] square(s) == n
}

/// Two naturals with the same square are equal.
pub proof fn lemma_square_injective(a: nat, b: nat)
    requires
        a * a == b * b,
    ensures
        a == b,
{
    if a < b {
        assert(a * a < b * b) by (nonlinear_arith)
            requires
                a < b,
        ;
    } else if b < a {
        assert(b * b < a * a) by (nonlinear_arith)
            requires
                b < a,
        ;
    }
}

/// The side of `s * s` cells is `s`.
pub proof fn lemma_side_of_square(s: nat)
    ensures
        is_square(s * s),
        side(s * s) == s,
{
    assert(square(s) == s * s);
    let x = side(s * s);
    lemma_square_injective(x, s);
}

/// The side length of a square matrix with `num` cells.
///
/// Returns `None` exactly when `num` is not a perfect square.
pub fn usize_sqrt(num: usize) -> (r: Option<usize>)
    ensures
        r is Some <==> is_square(num as nat),
        r matches Some(s) ==> s * s == num && s == side(num as nat),
{
    let mut s: usize = 0;
    // Invariant: `s` never passes the floor of the square root.
    while s + 1 <= num / (s + 1)
        invariant
            s * s <= num,
            s < usize::MAX,
        decreases num - s,
    {
        proof {
            lemma_step_fits(s as nat, num as nat);
        }
        s = s + 1;
    }
    proof {
        lemma_step_fails(s as nat, num as nat);
    }
    if s * s == num {
        proof {
            lemma_side_of_square(s as nat);
        }
        Some(s)
    } else {
        proof {
            assert forall|t: nat| #[trigger] square(t) != num as nat by {
                if t <= s {
                    assert(t * t <= s * s) by (nonlinear_arith)
                        requires
                            t <= s,
                    ;
                } else {
                    assert((s + 1) * (s + 1) <= t * t) by (nonlinear_arith)
                        requires
                            s + 1 <= t,
                    ;
                }
            }
        }
        None
    }
}

proof fn lemma_step_fits(s: nat, n: nat)
    requires
        s * s <= n,
        s + 1 <= n / (s + 1),
    ensures
        (s + 1) * (s + 1) <= n,
        s < n,
        2 * (s + 1) <= n + 1,
{
    assert((s + 1) * (n / (s + 1)) <= n) by (nonlinear_arith)
        requires
            s + 1 > 0,
    {
        vstd::arithmetic::div_mod::lemma_fundamental_div_mod(n as int, (s + 1) as int);
    }
    assert((s + 1) * (s + 1) <= (s + 1) * (n / (s + 1))) by (nonlinear_arith)
        requires
            s + 1 <= n / (s + 1),
    ;
    assert(2 * (s + 1) <= (s + 1) * (s + 1) + 1) by (nonlinear_arith);
}

proof fn lemma_step_fails(s: nat, n: nat)
    requires
        s * s <= n,
        !(s + 1 <= n / (s + 1)),
    ensures
        n < (s + 1) * (s + 1),
{
    vstd::arithmetic::div_mod::lemma_fundamental_div_mod(n as int, (s + 1) as int);
    let q = n / (s + 1);
    let r = n % (s + 1);
    assert(n == (s + 1) * q + r);
    assert(r < s + 1);
    assert(q + 1 <= s + 1);
    assert((s + 1) * q + r < (s + 1) * (q + 1)) by (nonlinear_arith)
        requires
            r < s + 1,
    ;
    assert((s + 1) * (q + 1) <= (s + 1) * (s + 1)) by (nonlinear_arith)
        requires
            q + 1 <= s + 1,
    ;
}

} // verus!
