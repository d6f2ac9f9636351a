//! The numbering of the triangles of generated meshes.

use vstd::prelude::*;

verus! {

/// The vertex, as its number, that stands at place `k` of the triangles of
/// a cone. The vertices of a cone are its tip, 0, the centre of its base, 1,
/// and then the points of its rim. Each step round the rim gives two
/// triangles: from the tip to the next point of the rim and this one, and
/// from the centre of the base to this point and the next.
pub open spec fn cone_corner(k: int) -> int {
    let point = k / 6 + 2;
    let place = k % 6;
    if place == 0 {
        0
    } else if place == 3 {
        1
    } else if place == 1 || place == 5 {
        point + 1
    } else {
        point
    }
}

/// The low 32 bits of a number.
pub open spec fn low_bits(n: int) -> u32 {
    n as u32
}

/// The low 32 bits of a number.
pub fn truncated(n: usize) -> (r: u32)
    ensures
        r == low_bits(n as int),
{
    #[verifier::truncate]
    (n as u32)
}

/// The corners of the triangles of a cone whose rim has `subdivisions`
/// steps, as the numbers of its vertices in 32 bits.
pub fn cone_indices(subdivisions: usize) -> (indices: Vec<u32>)
    requires
        6 * subdivisions <= usize::MAX,
    ensures
        indices@.len() == 6 * subdivisions,
        forall|k: int| 0 <= k < indices@.len() ==> indices@[k] == low_bits(cone_corner(k)),
{
    let mut indices: Vec<u32> = Vec::new();
    let mut step: usize = 0;
    while step < subdivisions
        invariant
            6 * subdivisions <= usize::MAX,
            step <= subdivisions,
            indices@.len() == 6 * step,
            forall|k: int| 0 <= k < indices@.len() ==> indices@[k] == low_bits(cone_corner(k)),
        decreases subdivisions - step,
    {
        let ghost before = indices@;
        let right = step + 2;
        let left = right + 1;
        indices.push(0);
        indices.push(truncated(left));
        indices.push(truncated(right));
        indices.push(1);
        indices.push(truncated(right));
        indices.push(truncated(left));
        proof {
            let base = 6 * step;
            assert forall|k: int| 0 <= k < indices@.len() implies indices@[k] == low_bits(
                cone_corner(k),
            ) by {
                if k < base {
                    assert(indices@[k] == before[k]);
                } else {
                    let place = k - base;
                    assert(0 <= place < 6);
                    assert(k / 6 == step && k % 6 == place) by (nonlinear_arith)
                        requires
                            k == 6 * step + place,
                            0 <= place < 6,
                    ;
                }
            }
        }
        step += 1;
    }
    indices
}

/// The numbers in 32 bits.
pub fn indices_u32(indices: &Vec<usize>) -> (low: Vec<u32>)
    ensures
        low@.len() == indices@.len(),
        forall|k: int| 0 <= k < low@.len() ==> low@[k] == low_bits(indices@[k] as int),
{
    let mut low: Vec<u32> = Vec::new();
    let mut i: usize = 0;
    while i < indices.len()
        invariant
            i <= indices@.len(),
            low@.len() == i,
            forall|k: int| 0 <= k < i ==> low@[k] == low_bits(indices@[k] as int),
        decreases indices@.len() - i,
    {
        low.push(truncated(indices[i]));
        i += 1;
    }
    low
}

} // verus!
