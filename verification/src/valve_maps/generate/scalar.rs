//! Coordinates.
//!
//! A coordinate is a single-precision number, held as its 32 bits. Two
//! coordinates are compared as the numbers are: a number that is not a number
//! equals nothing, itself included, and the two zeros equal each other.

use vstd::prelude::*;

verus! {

/// The bits without the sign.
pub open spec fn magnitude(bits: u32) -> u32 {
    bits & 0x7fff_ffff
}

/// The bits stand for no number.
pub open spec fn is_nan(bits: u32) -> bool {
    magnitude(bits) > 0x7f80_0000
}

/// The two coordinates are equal as numbers.
pub open spec fn same_scalar(a: u32, b: u32) -> bool {
    !is_nan(a) && !is_nan(b) && (a == b || (magnitude(a) == 0 && magnitude(b) == 0))
}

/// Tests whether two coordinates are equal as numbers.
pub fn scalar_eq(a: u32, b: u32) -> (same: bool)
    ensures
        same == same_scalar(a, b),
{
    let ma = a & 0x7fff_ffff;
    let mb = b & 0x7fff_ffff;
    ma <= 0x7f80_0000 && mb <= 0x7f80_0000 && (a == b || (ma == 0 && mb == 0))
}

/// The place of a number among the numbers: of two numbers the one with the
/// smaller place is the smaller. The two zeros have one place.
pub open spec fn place(bits: u32) -> int {
    if bits & 0x8000_0000 != 0 {
        -(magnitude(bits) as int)
    } else {
        magnitude(bits) as int
    }
}

/// Tests whether the bits stand for no number.
pub fn scalar_is_nan(bits: u32) -> (nan: bool)
    ensures
        nan == is_nan(bits),
{
    (bits & 0x7fff_ffff) > 0x7f80_0000
}

/// The place of a number among the numbers.
pub fn scalar_place(bits: u32) -> (at: i64)
    ensures
        at == place(bits),
{
    let size = bits & 0x7fff_ffff;
    assert(size <= 0x7fff_ffff) by (bit_vector)
        requires
            size == bits & 0x7fff_ffff,
    ;
    if bits & 0x8000_0000 != 0 {
        -(size as i64)
    } else {
        size as i64
    }
}

/// Equality of coordinates is symmetric and transitive.
pub proof fn lemma_same_scalar_is_partial_equivalence(a: u32, b: u32, c: u32)
    ensures
        same_scalar(a, b) ==> same_scalar(b, a),
        same_scalar(a, b) && same_scalar(b, c) ==> same_scalar(a, c),
{
}

/// Three coordinates: a point or a direction.
#[derive(Debug, Clone, Copy, PartialEq, Eq, Structural)]
pub struct Bits3 {
    pub x: u32,
    pub y: u32,
    pub z: u32,
}

/// Two coordinates: a place on a texture.
#[derive(Debug, Clone, Copy, PartialEq, Eq, Structural)]
pub struct Bits2 {
    pub x: u32,
    pub y: u32,
}

/// The two triples are equal, coordinate by coordinate.
pub open spec fn same3(a: Bits3, b: Bits3) -> bool {
    same_scalar(a.x, b.x) && same_scalar(a.y, b.y) && same_scalar(a.z, b.z)
}

/// The two pairs are equal, coordinate by coordinate.
pub open spec fn same2(a: Bits2, b: Bits2) -> bool {
    same_scalar(a.x, b.x) && same_scalar(a.y, b.y)
}

/// Equality of triples is symmetric.
pub proof fn lemma_same3_symmetric(a: Bits3, b: Bits3)
    ensures
        same3(a, b) == same3(b, a),
{
    lemma_same_scalar_is_partial_equivalence(a.x, b.x, a.x);
    lemma_same_scalar_is_partial_equivalence(b.x, a.x, b.x);
    lemma_same_scalar_is_partial_equivalence(a.y, b.y, a.y);
    lemma_same_scalar_is_partial_equivalence(b.y, a.y, b.y);
    lemma_same_scalar_is_partial_equivalence(a.z, b.z, a.z);
    lemma_same_scalar_is_partial_equivalence(b.z, a.z, b.z);
}

impl Bits3 {
    /// The coordinates that are given.
    pub fn new(x: u32, y: u32, z: u32) -> (r: Bits3)
        ensures
            r == (Bits3 { x, y, z }),
    {
        Bits3 { x, y, z }
    }

    /// Tests whether `self` and `other` are equal, coordinate by coordinate.
    pub fn same(&self, other: &Bits3) -> (same: bool)
        ensures
            same == same3(*self, *other),
    {
        scalar_eq(self.x, other.x) && scalar_eq(self.y, other.y) && scalar_eq(self.z, other.z)
    }
}

impl Bits2 {
    /// The coordinates that are given.
    pub fn new(x: u32, y: u32) -> (r: Bits2)
        ensures
            r == (Bits2 { x, y }),
    {
        Bits2 { x, y }
    }

    /// Tests whether `self` and `other` are equal, coordinate by coordinate.
    pub fn same(&self, other: &Bits2) -> (same: bool)
        ensures
            same == same2(*self, *other),
    {
        scalar_eq(self.x, other.x) && scalar_eq(self.y, other.y)
    }
}

/// No point after index `i` equals the point at `i`.
pub open spec fn is_last_occurrence(points: Seq<Bits3>, i: int) -> bool {
    forall|j: int| i < j < points.len() ==> !same3(#[trigger] points[j], points[i])
}

/// Tests whether the point at index `i` occurs at no later index.
pub fn occurs_last(points: &Vec<Bits3>, i: usize) -> (last: bool)
    requires
        i < points@.len(),
    ensures
        last == is_last_occurrence(points@, i as int),
{
    let n = points.len();
    let mut j = i + 1;
    while j < n
        invariant
            n == points@.len(),
            i < j <= n,
            forall|k: int| i < k < j ==> !same3(#[trigger] points@[k], points@[i as int]),
        decreases n - j,
    {
        if points[j].same(&points[i]) {
            return false;
        }
        j += 1;
    }
    true
}

} // verus!
