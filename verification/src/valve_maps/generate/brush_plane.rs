//! One face of a brush.

use vstd::prelude::*;
use crate::valve_maps::generate::choice::{chosen, lemma_chosen, rank};
use crate::valve_maps::generate::scalar::{
    is_last_occurrence, is_nan, place, same3, scalar_is_nan, scalar_place, Bits3,
};
use crate::valve_maps::generate::{positions, Vertex};

verus! {

/// A face of a brush: its corners in winding order, the corners of its
/// triangles as indices into them, and the name of its texture, where the
/// texture is known.
#[derive(Debug, Clone)]
pub struct PlaneGeometry {
    pub vertices: Vec<Vertex>,
    pub indices: Vec<usize>,
    pub texture: Option<String>,
}

/// What a face holds, with its texture's name as text.
pub struct PlaneGeometryView {
    pub vertices: Seq<Vertex>,
    pub indices: Seq<usize>,
    pub texture: Option<Seq<char>>,
}

/// The name as text.
pub open spec fn name_view(name: Option<String>) -> Option<Seq<char>> {
    match name {
        Some(text) => Some(text@),
        None => None,
    }
}

impl View for PlaneGeometry {
    type V = PlaneGeometryView;

    open spec fn view(&self) -> PlaneGeometryView {
        PlaneGeometryView {
            vertices: self.vertices@,
            indices: self.indices@,
            texture: name_view(self.texture),
        }
    }
}

impl PlaneGeometry {
    /// Every index names a corner.
    pub open spec fn wf(&self) -> bool {
        forall|k: int|
            0 <= k < self.indices@.len() ==> (#[trigger] self.indices@[k]) < self.vertices@.len()
    }

    /// The face that holds what is given.
    pub fn new(vertices: Vec<Vertex>, indices: Vec<usize>, texture: Option<String>) -> (r:
        PlaneGeometry)
        ensures
            r.vertices == vertices,
            r.indices == indices,
            r.texture == texture,
    {
        PlaneGeometry { vertices, indices, texture }
    }
}

/// The condition that the vertex at an index lies where no later vertex lies.
pub open spec fn last_at_its_position(vertices: Seq<Vertex>) -> spec_fn(int) -> bool {
    |i: int| is_last_occurrence(positions(vertices), i)
}

/// The vertices of `vertices`, in their order, with each position once: of
/// the vertices that lie at one position, the last is kept.
pub open spec fn vertices_with_distinct_positions(vertices: Seq<Vertex>) -> Seq<Vertex> {
    chosen(last_at_its_position(vertices), vertices.len() as int).map_values(
        |i: int| vertices[i],
    )
}

/// Tests whether the vertex at index `i` lies where no later vertex lies.
fn lies_last(vertices: &Vec<Vertex>, i: usize) -> (last: bool)
    requires
        i < vertices@.len(),
    ensures
        last == last_at_its_position(vertices@)(i as int),
{
    let n = vertices.len();
    let ghost points = positions(vertices@);
    let mut j = i + 1;
    while j < n
        invariant
            n == vertices@.len(),
            points == positions(vertices@),
            i < j <= n,
            forall|k: int| i < k < j ==> !same3(#[trigger] points[k], points[i as int]),
        decreases n - j,
    {
        if vertices[j].vertex.same(&vertices[i].vertex) {
            proof {
                assert(same3(points[j as int], points[i as int]));
            }
            return false;
        }
        j += 1;
    }
    true
}

/// Keeps one vertex for each position: the last that lies there.
pub fn unique_vertices(vertices: &Vec<Vertex>) -> (kept: Vec<Vertex>)
    ensures
        kept@ == vertices_with_distinct_positions(vertices@),
{
    let n = vertices.len();
    let ghost keep = last_at_its_position(vertices@);
    let mut kept: Vec<Vertex> = Vec::new();
    let mut i: usize = 0;
    while i < n
        invariant
            n == vertices@.len(),
            keep == last_at_its_position(vertices@),
            i <= n,
            kept@ == chosen(keep, i as int).map_values(|k: int| vertices@[k]),
        decreases n - i,
    {
        if lies_last(vertices, i) {
            kept.push(vertices[i]);
        }
        i += 1;
        proof {
            assert(kept@ =~= chosen(keep, i as int).map_values(|k: int| vertices@[k]));
        }
    }
    kept
}

/// The corner `i` comes before the corner `j` round a face, where `angles`
/// holds the angle of each corner: the corner with the greater angle comes
/// first, and of two corners with equal angles the one that was first.
pub open spec fn winds_before(angles: Seq<u32>, i: int, j: int) -> bool {
    place(angles[i]) > place(angles[j]) || (place(angles[i]) == place(angles[j]) && i < j)
}

/// `order` holds the corners of a face in winding order: each corner once,
/// and each before all that follow it.
pub open spec fn is_winding_order(angles: Seq<u32>, order: Seq<usize>) -> bool {
    &&& order.len() == angles.len()
    &&& forall|k: int| 0 <= k < order.len() ==> (#[trigger] order[k]) < angles.len()
    &&& forall|a: int, b: int|
        0 <= a < b < order.len() ==> winds_before(angles, order[a] as int, order[b] as int)
}

/// Some angle is no number.
pub open spec fn some_nan(angles: Seq<u32>) -> bool {
    exists|i: int| 0 <= i < angles.len() && is_nan(#[trigger] angles[i])
}

/// The corners of a face in winding order, given the angle of each corner
/// round the middle of the face. Where an angle is no number, there is no
/// such order.
pub fn winding_order(angles: &Vec<u32>) -> (order: Option<Vec<usize>>)
    ensures
        match order {
            Some(corners) => !some_nan(angles@) && is_winding_order(angles@, corners@),
            None => some_nan(angles@),
        },
{
    let n = angles.len();
    let mut order: Vec<usize> = Vec::new();
    let mut i: usize = 0;
    while i < n
        invariant
            n == angles@.len(),
            i <= n,
            order@.len() == i,
            forall|k: int| 0 <= k < i ==> !is_nan(#[trigger] angles@[k]),
            forall|k: int| 0 <= k < order@.len() ==> (#[trigger] order@[k]) < i,
            forall|a: int, b: int|
                0 <= a < b < order@.len() ==> winds_before(
                    angles@,
                    order@[a] as int,
                    order@[b] as int,
                ),
        decreases n - i,
    {
        if scalar_is_nan(angles[i]) {
            return None;
        }
        let at = scalar_place(angles[i]);
        let mut p: usize = 0;
        while p < i && scalar_place(angles[order[p]]) >= at
            invariant
                n == angles@.len(),
                i < n,
                p <= i,
                order@.len() == i,
                at == place(angles@[i as int]),
                forall|k: int| 0 <= k < order@.len() ==> (#[trigger] order@[k]) < i,
                forall|k: int| 0 <= k < p ==> place(angles@[(#[trigger] order@[k]) as int]) >= at,
            decreases i - p,
        {
            p += 1;
        }
        let ghost before = order@;
        order.insert(p, i);
        proof {
            let after = order@;
            assert(after =~= before.insert(p as int, i));
            assert forall|a: int, b: int| 0 <= a < b < after.len() implies winds_before(
                angles@,
                after[a] as int,
                after[b] as int,
            ) by {
                if b < p {
                    assert(after[a] == before[a] && after[b] == before[b]);
                } else if b == p {
                    assert(after[a] == before[a]);
                    assert(before[a] < i);
                } else if a == p {
                    assert(after[b] == before[b - 1]);
                    assert(place(angles@[before[p as int] as int]) < at);
                    if b - 1 > p {
                        assert(winds_before(
                            angles@,
                            before[p as int] as int,
                            before[b - 1] as int,
                        ));
                    }
                } else if a < p {
                    assert(after[a] == before[a] && after[b] == before[b - 1]);
                } else {
                    assert(after[a] == before[a - 1] && after[b] == before[b - 1]);
                }
            }
            assert forall|k: int| 0 <= k < after.len() implies (#[trigger] after[k]) < i + 1 by {
                if k < p {
                    assert(after[k] == before[k]);
                } else if k > p {
                    assert(after[k] == before[k - 1]);
                }
            }
        }
        i += 1;
    }
    Some(order)
}

/// In a winding order no corner stands twice.
pub proof fn lemma_winding_order_has_each_once(angles: Seq<u32>, order: Seq<usize>, a: int, b: int)
    requires
        is_winding_order(angles, order),
        0 <= a < b < order.len(),
    ensures
        order[a] != order[b],
{
    assert(winds_before(angles, order[a] as int, order[b] as int));
}

/// The corner, counted from the first corner of a face, that stands at
/// place `k` of the face's triangles when the face is cut into a fan: the
/// triangles are (0, 1, 2), (0, 2, 3), and so on.
pub open spec fn fan_corner(k: int) -> int {
    if k % 3 == 0 {
        0
    } else {
        k / 3 + k % 3
    }
}

/// The corners of the triangles of a face with `n` corners, the fan read
/// backwards. A face with fewer than three corners has no triangle.
pub open spec fn fan_backwards(n: int) -> Seq<int> {
    if n < 3 {
        Seq::empty()
    } else {
        Seq::new((3 * (n - 2)) as nat, |k: int| fan_corner(3 * (n - 2) - 1 - k))
    }
}

/// The corners of the triangles of a face with `n` corners.
pub fn fan_indices(n: usize) -> (indices: Vec<usize>)
    requires
        3 * n <= usize::MAX,
    ensures
        indices@.map_values(|i: usize| i as int) == fan_backwards(n as int),
        forall|k: int| 0 <= k < indices@.len() ==> (#[trigger] indices@[k]) < n,
{
    let mut indices: Vec<usize> = Vec::new();
    if n < 3 {
        proof {
            assert(indices@.map_values(|i: usize| i as int) =~= fan_backwards(n as int));
        }
        return indices;
    }
    let triangles = n - 2;
    let mut t = triangles;
    while t > 0
        invariant
            triangles == n - 2,
            3 * n <= usize::MAX,
            t <= triangles,
            indices@.len() == 3 * (triangles - t),
            forall|k: int|
                0 <= k < indices@.len() ==> (#[trigger] indices@[k]) as int == fan_corner(
                    3 * triangles - 1 - k,
                ) && indices@[k] < n,
        decreases t,
    {
        t -= 1;
        let ghost before = indices@;
        indices.push(t + 2);
        indices.push(t + 1);
        indices.push(0);
        proof {
            let base = 3 * (triangles - t - 1);
            assert(before.len() == base);
            assert forall|k: int| 0 <= k < indices@.len() implies (#[trigger] indices@[k]) as int
                == fan_corner(3 * triangles - 1 - k) && indices@[k] < n by {
                if k < base {
                    assert(indices@[k] == before[k]);
                } else {
                    let j = 3 * triangles - 1 - k;
                    assert(3 * t <= j < 3 * t + 3);
                    if k == base {
                        assert(j == 3 * t + 2);
                        assert(j % 3 == 2 && j / 3 == t) by (nonlinear_arith)
                            requires
                                j == 3 * t + 2,
                        ;
                    } else if k == base + 1 {
                        assert(j == 3 * t + 1);
                        assert(j % 3 == 1 && j / 3 == t) by (nonlinear_arith)
                            requires
                                j == 3 * t + 1,
                        ;
                    } else {
                        assert(j == 3 * t);
                        assert(j % 3 == 0) by (nonlinear_arith)
                            requires
                                j == 3 * t,
                        ;
                    }
                }
            }
        }
    }
    proof {
        assert(indices@.map_values(|i: usize| i as int) =~= fan_backwards(n as int));
    }
    indices
}

} // verus!
