//! One brush: its faces, and the vertices and triangles of the faces that
//! share a texture.

use vstd::prelude::*;
use crate::valve_maps::generate::brush_plane::{name_view, PlaneGeometry, PlaneGeometryView};
use crate::valve_maps::generate::choice::{chosen, lemma_chosen, lemma_chosen_rises, rank};
use crate::valve_maps::generate::scalar::same3;
use crate::valve_maps::generate::{same_vertex, Vertex};

verus! {

/// No vertex before index `i` equals `vertex` in all that it holds.
pub open spec fn no_equal_before(i: int, vertex: Vertex, vertices: Seq<Vertex>) -> bool {
    forall|j: int| 0 <= j < i && j < vertices.len() ==> !same_vertex(#[trigger] vertices[j], vertex)
}

/// The condition that the vertex at an index equals no earlier vertex.
pub open spec fn first_of_its_kind(vertices: Seq<Vertex>) -> spec_fn(int) -> bool {
    |i: int| no_equal_before(i, vertices[i], vertices)
}

/// The least index at or after `j` whose vertex lies where `vertex` lies, or
/// the length of `vertices` where there is none.
pub open spec fn first_at_position(vertices: Seq<Vertex>, vertex: Vertex, j: int) -> int
    decreases vertices.len() - j,
{
    if j < 0 || j >= vertices.len() {
        vertices.len() as int
    } else if same3(vertices[j].vertex, vertex.vertex) {
        j
    } else {
        first_at_position(vertices, vertex, j + 1)
    }
}

/// The vertices that are kept: each that equals no earlier one, in order.
pub open spec fn kept_vertices(vertices: Seq<Vertex>) -> Seq<Vertex> {
    chosen(first_of_its_kind(vertices), vertices.len() as int).map_values(|i: int| vertices[i])
}

/// What becomes of an index into `vertices` when only the kept vertices
/// stay. An index of a kept vertex becomes that vertex's place among the
/// kept. An index of a vertex that is dropped is first moved to the first
/// vertex that lies where the dropped one lies, and becomes that
/// vertex's place if it is kept. Every other index is dropped.
pub open spec fn new_index(vertices: Seq<Vertex>, index: int) -> Option<int> {
    let keep = first_of_its_kind(vertices);
    let target = if 0 <= index < vertices.len() && !keep(index) {
        first_at_position(vertices, vertices[index], 0)
    } else {
        index
    };
    if 0 <= target < vertices.len() && keep(target) {
        Some(rank(keep, target))
    } else {
        None
    }
}

/// The indices, each as `new_index` gives it, without those that are dropped.
pub open spec fn new_indices(vertices: Seq<Vertex>, indices: Seq<int>) -> Seq<int>
    decreases indices.len(),
{
    if indices.len() == 0 {
        Seq::empty()
    } else {
        let front = new_indices(vertices, indices.drop_last());
        match new_index(vertices, indices.last()) {
            Some(index) => front.push(index),
            None => front,
        }
    }
}

/// The indices, each moved up by `offset`.
pub open spec fn shifted(indices: Seq<usize>, offset: int) -> Seq<int> {
    indices.map_values(|i: usize| i + offset)
}

/// Of the vertices that are kept, no two are equal.
pub proof fn lemma_kept_vertices_differ(vertices: Seq<Vertex>, a: int, b: int)
    requires
        0 <= a < b < kept_vertices(vertices).len(),
    ensures
        !same_vertex(kept_vertices(vertices)[a], kept_vertices(vertices)[b]),
{
    let keep = first_of_its_kind(vertices);
    let n = vertices.len() as int;
    lemma_chosen(keep, n);
    lemma_chosen_rises(keep, n, a, b);
    let i = chosen(keep, n)[a];
    let j = chosen(keep, n)[b];
    assert(keep(j));
    assert(!same_vertex(vertices[i], vertices[j]));
}

/// The numbers of a list of indices.
pub open spec fn as_ints(indices: Seq<usize>) -> Seq<int> {
    indices.map_values(|i: usize| i as int)
}

/// Tests whether no vertex before index `i` equals `vertex`.
pub fn unique(i: usize, vertex: &Vertex, vertices: &Vec<Vertex>) -> (first: bool)
    ensures
        first == no_equal_before(i as int, *vertex, vertices@),
{
    let n = vertices.len();
    let mut j: usize = 0;
    while j < i && j < n
        invariant
            n == vertices@.len(),
            forall|k: int| 0 <= k < j ==> !same_vertex(#[trigger] vertices@[k], *vertex),
        decreases n - j,
    {
        if vertices[j].same(vertex) {
            return false;
        }
        j += 1;
    }
    true
}

/// The least index whose vertex lies where `vertex` lies.
fn position_of(vertices: &Vec<Vertex>, vertex: &Vertex) -> (at: usize)
    ensures
        at == first_at_position(vertices@, *vertex, 0),
        at <= vertices@.len(),
{
    let n = vertices.len();
    let mut j: usize = 0;
    while j < n && !vertices[j].vertex.same(&vertex.vertex)
        invariant
            n == vertices@.len(),
            j <= n,
            first_at_position(vertices@, *vertex, j as int) == first_at_position(
                vertices@,
                *vertex,
                0,
            ),
        decreases n - j,
    {
        j += 1;
    }
    j
}

/// Drops the vertices that equal an earlier one, and renumbers the indices.
pub fn filter_vertices(vertices: &Vec<Vertex>, indices: Vec<usize>) -> (r: (
    Vec<Vertex>,
    Vec<usize>,
))
    ensures
        r.0@ == kept_vertices(vertices@),
        as_ints(r.1@) == new_indices(vertices@, as_ints(indices@)),
        forall|k: int| 0 <= k < r.1@.len() ==> (#[trigger] r.1@[k]) < r.0@.len(),
{
    let n = vertices.len();
    let ghost keep = first_of_its_kind(vertices@);
    let mut kept: Vec<Vertex> = Vec::new();
    let mut places: Vec<Option<usize>> = Vec::new();
    let mut i: usize = 0;
    while i < n
        invariant
            n == vertices@.len(),
            keep == first_of_its_kind(vertices@),
            i <= n,
            kept@ == chosen(keep, i as int).map_values(|k: int| vertices@[k]),
            places@.len() == i,
            forall|k: int|
                0 <= k < i ==> (#[trigger] places@[k]) == (if keep(k) {
                    Some(rank(keep, k) as usize)
                } else {
                    None::<usize>
                }),
        decreases n - i,
    {
        proof {
            lemma_chosen(keep, i as int);
        }
        if unique(i, &vertices[i], vertices) {
            places.push(Some(kept.len()));
            kept.push(vertices[i]);
        } else {
            places.push(None);
        }
        i += 1;
        proof {
            assert(kept@ =~= chosen(keep, i as int).map_values(|k: int| vertices@[k]));
        }
    }
    let m = indices.len();
    let mut renumbered: Vec<usize> = Vec::new();
    let mut k: usize = 0;
    proof {
        assert(as_ints(indices@).take(0) =~= Seq::<int>::empty());
        lemma_chosen(keep, n as int);
    }
    while k < m
        invariant
            n == vertices@.len(),
            m == indices@.len(),
            keep == first_of_its_kind(vertices@),
            k <= m,
            kept@.len() == rank(keep, n as int),
            places@.len() == n,
            forall|j: int|
                0 <= j < n ==> (#[trigger] places@[j]) == (if keep(j) {
                    Some(rank(keep, j) as usize)
                } else {
                    None::<usize>
                }),
            as_ints(renumbered@) == new_indices(vertices@, as_ints(indices@).take(k as int)),
            forall|j: int| 0 <= j < renumbered@.len() ==> (#[trigger] renumbered@[j]) < kept@.len(),
        decreases m - k,
    {
        let index = indices[k];
        proof {
            lemma_chosen(keep, n as int);
            assert(as_ints(indices@).take(k + 1).drop_last() =~= as_ints(indices@).take(k as int));
            assert(as_ints(indices@).take(k + 1).last() == index);
        }
        let target = if index < n && places[index].is_none() {
            position_of(vertices, &vertices[index])
        } else {
            index
        };
        let ghost before = renumbered@;
        if target < n {
            match places[target] {
                Some(place) => {
                    renumbered.push(place);
                    proof {
                        assert(as_ints(renumbered@) =~= as_ints(before).push(place as int));
                    }
                },
                None => {},
            }
        }
        k += 1;
    }
    proof {
        assert(as_ints(indices@).take(m as int) =~= as_ints(indices@));
    }
    (kept, renumbered)
}

/// The faces of a brush.
#[derive(Debug, Clone)]
pub struct BrushGeometry {
    pub plane_geometry: Vec<PlaneGeometry>,
}

/// The vertices of the faces in `planes` that have the texture `texture`,
/// one face after the other, and the indices of their triangles, each moved
/// up by the number of vertices of the faces before its own.
pub open spec fn gathered_faces(planes: Seq<PlaneGeometry>, texture: Option<Seq<char>>) -> (
    Seq<Vertex>,
    Seq<int>,
)
    decreases planes.len(),
{
    if planes.len() == 0 {
        (Seq::empty(), Seq::empty())
    } else {
        let (vertices, indices) = gathered_faces(planes.drop_last(), texture);
        let face = planes.last();
        if name_view(face.texture) == texture {
            (
                vertices + face.vertices@,
                indices + shifted(face.indices@, vertices.len() as int),
            )
        } else {
            (vertices, indices)
        }
    }
}

/// The vertices and triangles of the faces in `planes` that have the
/// texture `texture`, with equal vertices dropped.
pub open spec fn gathered_brush(planes: Seq<PlaneGeometry>, texture: Option<Seq<char>>) -> (
    Seq<Vertex>,
    Seq<int>,
) {
    let (vertices, indices) = gathered_faces(planes, texture);
    (kept_vertices(vertices), new_indices(vertices, indices))
}

/// Tests whether two names are the same text, or both missing.
pub fn same_name(a: &Option<String>, b: &Option<String>) -> (same: bool)
    ensures
        same == (name_view(*a) == name_view(*b)),
{
    match (a, b) {
        (None, None) => true,
        (Some(x), Some(y)) => *x == *y,
        _ => false,
    }
}

impl BrushGeometry {
    /// Every index of every face names a corner of its face.
    pub open spec fn wf(&self) -> bool {
        forall|f: int| 0 <= f < self.plane_geometry@.len() ==> (#[trigger] self.plane_geometry@[f]).wf()
    }

    /// The brush with the faces `plane_geometry`.
    pub fn new(plane_geometry: Vec<PlaneGeometry>) -> (r: BrushGeometry)
        ensures
            r.plane_geometry == plane_geometry,
    {
        BrushGeometry { plane_geometry }
    }

    /// The vertices and triangles of the faces with the texture `texture`,
    /// before equal vertices are dropped.
    pub fn gather_faces(&self, texture: &Option<String>) -> (r: (Vec<Vertex>, Vec<usize>))
        requires
            self.wf(),
        ensures
            (r.0@, as_ints(r.1@)) == gathered_faces(self.plane_geometry@, name_view(*texture)),
            forall|k: int| 0 <= k < r.1@.len() ==> (#[trigger] r.1@[k]) < r.0@.len(),
    {
        let planes = &self.plane_geometry;
        let n = planes.len();
        let ghost wanted = name_view(*texture);
        let mut vertices: Vec<Vertex> = Vec::new();
        let mut indices: Vec<usize> = Vec::new();
        let mut f: usize = 0;
        proof {
            assert(planes@.take(0) =~= Seq::<PlaneGeometry>::empty());
            assert(as_ints(indices@) =~= Seq::<int>::empty());
        }
        while f < n
            invariant
                self.wf(),
                planes == &self.plane_geometry,
                n == planes@.len(),
                wanted == name_view(*texture),
                f <= n,
                (vertices@, as_ints(indices@)) == gathered_faces(planes@.take(f as int), wanted),
                forall|k: int| 0 <= k < indices@.len() ==> (#[trigger] indices@[k]) < vertices@.len(),
            decreases n - f,
        {
            let face = &planes[f];
            proof {
                assert(planes@.take(f + 1).drop_last() =~= planes@.take(f as int));
                assert(planes@.take(f + 1).last() == planes@[f as int]);
                assert(face.wf());
            }
            if same_name(&face.texture, texture) {
                let offset = vertices.len();
                let ghost vertices_before = vertices@;
                let ghost indices_before = indices@;
                let mut v: usize = 0;
                while v < face.vertices.len()
                    invariant
                        v <= face.vertices@.len(),
                        vertices@ == vertices_before + face.vertices@.take(v as int),
                    decreases face.vertices@.len() - v,
                {
                    vertices.push(face.vertices[v]);
                    v += 1;
                    proof {
                        assert(vertices@ =~= vertices_before + face.vertices@.take(v as int));
                    }
                }
                proof {
                    assert(face.vertices@.take(face.vertices@.len() as int) =~= face.vertices@);
                }
                let total = vertices.len();
                let mut t: usize = 0;
                proof {
                    assert(as_ints(indices@) =~= as_ints(indices_before) + shifted(
                        face.indices@.take(0),
                        offset as int,
                    ));
                }
                while t < face.indices.len()
                    invariant
                        face.wf(),
                        total == vertices@.len(),
                        offset == vertices_before.len(),
                        vertices@ == vertices_before + face.vertices@,
                        t <= face.indices@.len(),
                        as_ints(indices@) == as_ints(indices_before) + shifted(
                            face.indices@.take(t as int),
                            offset as int,
                        ),
                        forall|k: int|
                            0 <= k < indices@.len() ==> (#[trigger] indices@[k]) < vertices@.len(),
                    decreases face.indices@.len() - t,
                {
                    let ghost so_far = indices@;
                    let index = face.indices[t];
                    assert(index < face.vertices@.len());
                    assert(total == offset + face.vertices@.len());
                    indices.push(index + offset);
                    t += 1;
                    proof {
                        assert(face.indices@.take(t as int) =~= face.indices@.take(t - 1).push(
                            index,
                        ));
                        assert(shifted(face.indices@.take(t as int), offset as int) =~= shifted(
                            face.indices@.take(t - 1),
                            offset as int,
                        ).push(index + offset));
                        assert(as_ints(indices@) =~= as_ints(so_far).push(index + offset));
                        assert(as_ints(indices@) =~= as_ints(indices_before) + shifted(
                            face.indices@.take(t as int),
                            offset as int,
                        ));
                    }
                }
                proof {
                    assert(face.indices@.take(face.indices@.len() as int) =~= face.indices@);
                }
            }
            f += 1;
        }
        proof {
            assert(planes@.take(n as int) =~= planes@);
        }
        (vertices, indices)
    }

    /// The vertices and triangles of the faces with the texture `texture`:
    /// what `gather_faces` gives, with equal vertices dropped.
    pub fn gather_brush_geometry(&self, texture: &Option<String>) -> (r: (Vec<Vertex>, Vec<usize>))
        requires
            self.wf(),
        ensures
            (r.0@, as_ints(r.1@)) == gathered_brush(self.plane_geometry@, name_view(*texture)),
            forall|k: int| 0 <= k < r.1@.len() ==> (#[trigger] r.1@[k]) < r.0@.len(),
    {
        let (vertices, indices) = self.gather_faces(texture);
        filter_vertices(&vertices, indices)
    }
}

} // verus!
