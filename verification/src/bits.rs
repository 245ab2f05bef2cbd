//! Bit manipulation routines. These functions work on 32-bit unsigned integers
//! and return the result (no side effects).

use vstd::prelude::*;

verus! {

/// True when bit `i` of `x` is 1.
pub open spec fn spec_bit(x: u32, i: u8) -> bool {
    (x >> i) & 1 == 1
}

/// The value of the field `x[ub:lb]` (both ends included).
pub open spec fn spec_field(x: u32, ub: u8, lb: u8) -> u32 {
    (x >> lb) & (((1u32 << (ub - lb + 1) as u32) - 1) as u32)
}

/// Returns `x` with `x[i] = 1`.
pub fn bit_set(x: u32, i: u8) -> (r: u32)
    requires
        i < 32,
    ensures
        spec_bit(r, i),
        forall|j: u8| j < 32 && j != i ==> spec_bit(r, j) == spec_bit(x, j),
        r == (x | (1u32 << i as u32)),
{
    let r = x | (1 << i);
    proof {
        assert(i < 32 && r == (x | (1u32 << i as u32)) ==> spec_bit(r, i)) by (bit_vector);
        assert forall|j: u8| j < 32 && j != i implies spec_bit(r, j) == spec_bit(x, j) by {
            assert(i < 32 && j < 32 && j != i && r == (x | (1u32 << i as u32)) ==> spec_bit(r, j)
                == spec_bit(x, j)) by (bit_vector);
        }
    }
    r
}

/// Returns `x` with `x[i] = 0`.
pub fn bit_clr(x: u32, i: u8) -> (r: u32)
    requires
        i < 32,
    ensures
        !spec_bit(r, i),
        forall|j: u8| j < 32 && j != i ==> spec_bit(r, j) == spec_bit(x, j),
        r == (x & !(1u32 << i as u32)),
{
    let r = x & !(1 << i);
    proof {
        assert(i < 32 && r == (x & !(1u32 << i as u32)) ==> !spec_bit(r, i)) by (bit_vector);
        assert forall|j: u8| j < 32 && j != i implies spec_bit(r, j) == spec_bit(x, j) by {
            assert(i < 32 && j < 32 && j != i && r == (x & !(1u32 << i as u32)) ==> spec_bit(r, j)
                == spec_bit(x, j)) by (bit_vector);
        }
    }
    r
}

/// Returns `x` with `x[i]` toggled.
pub fn bit_flip(x: u32, i: u8) -> (r: u32)
    requires
        i < 32,
    ensures
        spec_bit(r, i) == !spec_bit(x, i),
        forall|j: u8| j < 32 && j != i ==> spec_bit(r, j) == spec_bit(x, j),
        r == (x ^ (1u32 << i as u32)),
{
    let r = x ^ (1 << i);
    proof {
        assert(i < 32 && r == (x ^ (1u32 << i as u32)) ==> (spec_bit(r, i) == !spec_bit(
            x,
            i,
        ))) by (bit_vector);
        assert forall|j: u8| j < 32 && j != i implies spec_bit(r, j) == spec_bit(x, j) by {
            assert(i < 32 && j < 32 && j != i && r == (x ^ (1u32 << i as u32)) ==> spec_bit(r, j)
                == spec_bit(x, j)) by (bit_vector);
        }
    }
    r
}

/// Flipping a bit twice returns the original word.
pub proof fn lemma_bit_flip_twice(x: u32, i: u8)
    requires
        i < 32,
    ensures
        (x ^ (1u32 << i as u32)) ^ (1u32 << i as u32) == x,
{
    assert(i < 32 ==> (x ^ (1u32 << i as u32)) ^ (1u32 << i as u32) == x) by (bit_vector);
}

/// Returns `true` if `x[i] == 1`, otherwise `false`.
pub fn bit_is_set(x: u32, i: u8) -> (r: bool)
    requires
        i < 32,
    ensures
        r == spec_bit(x, i),
{
    (x >> i) & 1 == 1
}

/// Returns `true` if `x[i] == 0`, otherwise `false`.
pub fn bit_is_clr(x: u32, i: u8) -> (r: bool)
    requires
        i < 32,
    ensures
        r == !spec_bit(x, i),
{
    proof {
        assert((x >> i) & 1 == 0 <==> !((x >> i) & 1 == 1)) by (bit_vector);
    }
    (x >> i) & 1 == 0
}

/// Returns `x` with `x[ub:lb] = y`.
pub fn bits_modify(x: u32, ub: u8, lb: u8, y: u32) -> (r: u32)
    requires
        lb <= ub < 32,
        ub - lb < 31,
        y < (1u32 << (ub - lb + 1) as u32),
    ensures
        spec_field(r, ub, lb) == y,
        forall|j: u8| j < 32 && !(lb <= j <= ub) ==> spec_bit(r, j) == spec_bit(x, j),
{
    let mask = (1u32 << (ub - lb + 1)) - 1;
    let r = x & !(mask << lb) | (y << lb);
    proof {
        assert(lb <= ub < 32 && ub - lb < 31 && y < (1u32 << (ub - lb + 1) as u32) && mask == ((
        1u32 << (ub - lb + 1) as u32) - 1) as u32 && r == ((x & !(mask << lb as u32)) | (y
            << lb as u32)) ==> spec_field(r, ub, lb) == y) by (bit_vector);
        assert forall|j: u8| j < 32 && !(lb <= j <= ub) implies spec_bit(r, j) == spec_bit(
            x,
            j,
        ) by {
            assert(lb <= ub < 32 && ub - lb < 31 && j < 32 && !(lb <= j <= ub) && y < (1u32 << (ub
                - lb + 1) as u32) && mask == ((1u32 << (ub - lb + 1) as u32) - 1) as u32 && r == ((x
                & !(mask << lb as u32)) | (y << lb as u32)) ==> spec_bit(r, j) == spec_bit(
                x,
                j,
            )) by (bit_vector);
        }
    }
    r
}

/// Returns `true` if `x[ub:lb] == y`, otherwise `false`.
pub fn bits_eq(x: u32, ub: u8, lb: u8, y: u32) -> (r: bool)
    requires
        lb <= ub < 32,
        ub - lb < 31,
        y < (1u32 << (ub - lb + 1) as u32),
    ensures
        r == (spec_field(x, ub, lb) == y),
{
    let mask = (1u32 << (ub - lb + 1)) - 1;
    (x >> lb) & mask == y
}

} // verus!
