//! Genes are single-precision reals. The library never does arithmetic on
//! them: it stores, compares and moves them, and for that it holds each one as
//! the 32 bits of its IEEE-754 encoding (sign, eight exponent bits, 23
//! fraction bits).
//!
//! Three facts about that encoding are used throughout. The patterns from
//! `ZERO` up to `INFINITY` are the non-negative numbers in increasing order,
//! so comparing two such patterns as integers compares the numbers they
//! encode. Setting the sign bit of such a pattern negates the number, so the
//! patterns from `NEGATIVE_ZERO` up to `NEGATIVE_INFINITY` are the numbers
//! that are not positive, in decreasing order. Every other pattern is a NaN.
use vstd::prelude::*;

verus! {

/// The encoding of one real-valued gene.
pub type Gene = u32;

/// The encoding of `+0.0`.
pub const ZERO: Gene = 0;

/// The encoding of `-0.0`.
pub const NEGATIVE_ZERO: Gene = 0x8000_0000;

/// The encoding of `1.0`.
pub const ONE: Gene = 0x3F80_0000;

/// The encoding of positive infinity, the largest pattern that is not negative
/// and not a NaN.
pub const INFINITY: Gene = 0x7F80_0000;

/// The encoding of negative infinity, the largest pattern with the sign bit
/// set that is not a NaN.
pub const NEGATIVE_INFINITY: Gene = 0xFF80_0000;

/// `gene` encodes a number: it is not a NaN.
pub open spec fn spec_is_number(gene: Gene) -> bool {
    gene <= INFINITY || NEGATIVE_ZERO <= gene <= NEGATIVE_INFINITY
}

/// Where the number that `gene` encodes stands among the numbers: of two
/// numbers, the one of lower rank is the lesser, and two of one rank are
/// equal. Both zeros have the rank 0.
pub open spec fn rank(gene: Gene) -> int {
    if gene < NEGATIVE_ZERO {
        gene as int
    } else {
        NEGATIVE_ZERO - gene
    }
}

/// The encoding of the number that `gene` encodes, negated.
pub open spec fn negated(gene: Gene) -> Gene {
    if gene < NEGATIVE_ZERO {
        (gene + NEGATIVE_ZERO) as Gene
    } else {
        (gene - NEGATIVE_ZERO) as Gene
    }
}

/// A number with all below zero cut off: `gene` where it encodes a number
/// greater than zero, and `ZERO` where it encodes any other number, or none.
pub open spec fn rectified(gene: Gene) -> Gene {
    if spec_is_number(gene) && rank(gene) > 0 {
        gene
    } else {
        ZERO
    }
}

/// A number kept within `bound` of zero: `gene` where it lies between
/// `bound` negated and `bound`, else the nearer of the two. What is not a
/// number counts as beyond `bound`.
pub open spec fn clamped(gene: Gene, bound: Gene) -> Gene {
    if !spec_is_number(gene) || rank(gene) > rank(bound) {
        bound
    } else if rank(gene) < -rank(bound) {
        negated(bound)
    } else {
        gene
    }
}

/// The value encoded by `gene` is zero, of either sign.
pub open spec fn spec_is_zero(gene: Gene) -> bool {
    gene == ZERO || gene == NEGATIVE_ZERO
}

/// The value encoded by `gene` is a number (not a NaN) and is at least zero.
pub open spec fn spec_is_non_negative(gene: Gene) -> bool {
    gene <= INFINITY || gene == NEGATIVE_ZERO
}

/// The value encoded by `gene` is a number greater than zero.
pub open spec fn spec_is_positive(gene: Gene) -> bool {
    ZERO < gene <= INFINITY
}

/// The value encoded by `gene` lies in the closed interval from 0 to 1.
pub open spec fn spec_is_probability(gene: Gene) -> bool {
    gene <= ONE || gene == NEGATIVE_ZERO
}

/// Whether `gene` encodes a number.
#[verifier::when_used_as_spec(spec_is_number)]
pub fn is_number(gene: Gene) -> (number: bool)
    ensures
        number == spec_is_number(gene),
{
    gene <= INFINITY || (NEGATIVE_ZERO <= gene && gene <= NEGATIVE_INFINITY)
}

/// The greater of a number and zero. The result is a number and not
/// negative.
pub fn relu(gene: Gene) -> (output: Gene)
    ensures
        output == rectified(gene),
        output <= INFINITY,
{
    if ZERO < gene && gene <= INFINITY {
        gene
    } else {
        ZERO
    }
}

/// Keeps a number within `bound` of zero. The result is a number between
/// `bound` negated and `bound`.
pub fn clamp(gene: Gene, bound: Gene) -> (kept: Gene)
    requires
        spec_is_positive(bound),
    ensures
        kept == clamped(gene, bound),
        spec_is_number(kept),
        -rank(bound) <= rank(kept) <= rank(bound),
{
    if gene < NEGATIVE_ZERO {
        if gene > bound {
            bound
        } else {
            gene
        }
    } else if gene > NEGATIVE_ZERO + bound {
        if gene > NEGATIVE_INFINITY {
            bound
        } else {
            NEGATIVE_ZERO + bound
        }
    } else {
        gene
    }
}

/// Whether `gene` encodes zero, of either sign.
#[verifier::when_used_as_spec(spec_is_zero)]
pub fn is_zero(gene: Gene) -> (zero: bool)
    ensures
        zero == spec_is_zero(gene),
{
    gene == ZERO || gene == NEGATIVE_ZERO
}

/// Whether `gene` encodes a number that is at least zero.
#[verifier::when_used_as_spec(spec_is_non_negative)]
pub fn is_non_negative(gene: Gene) -> (non_negative: bool)
    ensures
        non_negative == spec_is_non_negative(gene),
{
    gene <= INFINITY || gene == NEGATIVE_ZERO
}

/// Whether `gene` encodes a number greater than zero.
#[verifier::when_used_as_spec(spec_is_positive)]
pub fn is_positive(gene: Gene) -> (positive: bool)
    ensures
        positive == spec_is_positive(gene),
{
    ZERO < gene && gene <= INFINITY
}

/// Whether `gene` encodes a number in the closed interval from 0 to 1.
#[verifier::when_used_as_spec(spec_is_probability)]
pub fn is_probability(gene: Gene) -> (probability: bool)
    ensures
        probability == spec_is_probability(gene),
{
    gene <= ONE || gene == NEGATIVE_ZERO
}

} // verus!
