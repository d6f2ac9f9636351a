//! The bookkeeping of brush geometry: which vertices are kept, how the
//! triangles of a face are numbered, and how the faces of an entity are
//! gathered by texture. The arithmetic on coordinates is not done here.

pub mod brush;
pub mod brush_plane;
pub mod choice;
pub mod scalar;
pub mod texture_filter;

use vstd::prelude::*;
use vstd::string::*;
use crate::valve_maps::convert::{uvs_view, MeshSurface, MeshSurfaceView};
use crate::valve_maps::generate::brush::{as_ints, gathered_brush, BrushGeometry};
use crate::valve_maps::generate::texture_filter::{distinct_names, names_of, unique_names};
use crate::valve_maps::generate::brush_plane::{name_view, PlaneGeometry};
use crate::valve_maps::generate::choice::{chosen, lemma_chosen, lemma_chosen_rises};
use crate::valve_maps::generate::scalar::{
    is_last_occurrence, lemma_same3_symmetric, occurs_last, same2, same3, same_scalar, scalar_eq,
    Bits2, Bits3,
};
use crate::valve_maps::parse::base::{lemma_views_push, views};
use crate::valve_maps::parse::formats::fields::Fields;
use crate::valve_maps::table::{
    distinct_keys, entries_map, lemma_distinct_keys_push, lemma_entries_map_keys,
    lemma_entries_map_update, lemma_entries_map_value,
};

verus! {

/// The faces of an entity are smoothed where its property `_phong` is `1`.
pub open spec fn smoothed(fields: Map<Seq<char>, Seq<char>>) -> bool {
    fields.contains_key("_phong"@) && fields["_phong"@] == "1"@
}

/// Tests whether the faces of an entity with the properties `fields` are
/// smoothed.
pub fn is_smoothed(fields: &Fields) -> (smooth: bool)
    ensures
        smooth == smoothed(fields@),
{
    match fields.get_property("_phong") {
        Some(value) => {
            let one = "1".to_owned();
            value.to_owned() == one
        },
        None => false,
    }
}

/// The angle up to which the faces of a smoothed entity count as one
/// surface, as its property `_phong_angle` gives it.
pub fn smoothing_angle(fields: &Fields) -> (angle:
    Option<&str>)
    ensures
        match angle {
            Some(text) => fields@.contains_key("_phong_angle"@) && fields@["_phong_angle"@]
                == text@,
            None => !fields@.contains_key("_phong_angle"@),
        },
{
    fields.get_property("_phong_angle")
}

/// A corner of a face: where it is, the direction the face looks in there,
/// the direction of the texture with its handedness, and its place on the
/// texture, where the face has one.
#[derive(Debug, Clone, Copy)]
pub struct Vertex {
    pub vertex: Bits3,
    pub normal: Bits3,
    pub tangent: (Bits3, u32),
    pub uv: Option<Bits2>,
}

/// Both places on a texture are missing, or both are there and equal.
pub open spec fn same_uv(a: Option<Bits2>, b: Option<Bits2>) -> bool {
    match (a, b) {
        (None, None) => true,
        (Some(x), Some(y)) => same2(x, y),
        _ => false,
    }
}

/// The two vertices are equal in all that they hold.
pub open spec fn same_vertex(a: Vertex, b: Vertex) -> bool {
    &&& same3(a.vertex, b.vertex)
    &&& same3(a.normal, b.normal)
    &&& same3(a.tangent.0, b.tangent.0)
    &&& same_scalar(a.tangent.1, b.tangent.1)
    &&& same_uv(a.uv, b.uv)
}

/// Where the vertices are.
pub open spec fn positions(vertices: Seq<Vertex>) -> Seq<Bits3> {
    vertices.map_values(|v: Vertex| v.vertex)
}

impl Vertex {
    /// The value that holds what is given.
    pub fn new(vertex: Bits3, normal: Bits3, tangent: (Bits3, u32), uv: Option<Bits2>) -> (r:
        Vertex)
        ensures
            r == (Vertex { vertex, normal, tangent, uv }),
    {
        Vertex { vertex, normal, tangent, uv }
    }

    /// Tests whether `self` and `other` are equal in all that they hold.
    pub fn same(&self, other: &Vertex) -> (same: bool)
        ensures
            same == same_vertex(*self, *other),
    {
        let uv = match (&self.uv, &other.uv) {
            (None, None) => true,
            (Some(x), Some(y)) => x.same(y),
            _ => false,
        };
        self.vertex.same(&other.vertex) && self.normal.same(&other.normal) && self.tangent.0.same(
            &other.tangent.0,
        ) && scalar_eq(self.tangent.1, other.tangent.1) && uv
    }
}

/// The size of a texture, in pixels.
#[derive(Debug, Clone, Copy, PartialEq, Eq, Structural)]
pub struct TextureSize {
    pub width: u32,
    pub height: u32,
}

impl TextureSize {
    /// The value that holds what is given.
    pub fn new(width: u32, height: u32) -> (r: TextureSize)
        ensures
            r == (TextureSize { width, height }),
    {
        TextureSize { width, height }
    }
}

/// The sizes of the textures that are known, by name.
#[derive(Debug)]
pub struct TextureInfo {
    entries: Vec<(String, TextureSize)>,
}

/// The names and sizes that a list of pairs stands for.
pub open spec fn sizes_of(pairs: Seq<(String, TextureSize)>) -> Seq<(Seq<char>, TextureSize)> {
    pairs.map_values(|pair: (String, TextureSize)| (pair.0@, pair.1))
}

impl View for TextureInfo {
    type V = Map<Seq<char>, TextureSize>;

    closed spec fn view(&self) -> Map<Seq<char>, TextureSize> {
        entries_map(sizes_of(self.entries@))
    }
}

impl TextureInfo {
    #[verifier::type_invariant]
    closed spec fn distinct(&self) -> bool {
        distinct_keys(sizes_of(self.entries@))
    }

    /// No texture is known.
    pub fn new() -> (r: TextureInfo)
        ensures
            r@ == Map::<Seq<char>, TextureSize>::empty(),
    {
        TextureInfo { entries: Vec::new() }
    }

    /// The index of the entry for the texture `name`.
    fn position(&self, name: &String) -> (found: Option<usize>)
        ensures
            match found {
                Some(i) => i < self.entries@.len() && sizes_of(self.entries@)[i as int].0 == name@,
                None => forall|i: int|
                    0 <= i < self.entries@.len() ==> (#[trigger] sizes_of(self.entries@)[i]).0
                        != name@,
            },
    {
        let mut i: usize = 0;
        while i < self.entries.len()
            invariant
                i <= self.entries.len(),
                forall|k: int| 0 <= k < i ==> (#[trigger] sizes_of(self.entries@)[k]).0 != name@,
            decreases self.entries.len() - i,
        {
            if self.entries[i].0 == *name {
                return Some(i);
            }
            i += 1;
        }
        None
    }

    /// These textures with the size of the texture `name` set to `width` by
    /// `height`.
    pub fn add_texture(self, name: &str, width: u32, height: u32) -> (r: TextureInfo)
        ensures
            r@ == self@.insert(name@, TextureSize { width, height }),
    {
        proof {
            use_type_invariant(&self);
        }
        let ghost before = sizes_of(self.entries@);
        let key = name.to_owned();
        let size = TextureSize::new(width, height);
        let found = self.position(&key);
        let mut entries = self.entries;
        match found {
            Some(i) => {
                proof {
                    lemma_entries_map_update(before, i as int, size);
                    assert(sizes_of(entries@.update(i as int, (key, size))) =~= before.update(
                        i as int,
                        (key@, size),
                    ));
                }
                entries.set(i, (key, size));
            },
            None => {
                proof {
                    assert(sizes_of(entries@.push((key, size))) =~= before.push((key@, size)));
                    lemma_distinct_keys_push(before, key@, size);
                }
                entries.push((key, size));
            },
        }
        TextureInfo { entries }
    }

    /// The size of the texture `name`, where it is known.
    pub fn get(&self, name: &str) -> (size: Option<TextureSize>)
        ensures
            match size {
                Some(found) => self@.contains_key(name@) && self@[name@] == found,
                None => !self@.contains_key(name@),
            },
    {
        proof {
            use_type_invariant(self);
            lemma_entries_map_keys(sizes_of(self.entries@), name@);
        }
        let key = name.to_owned();
        match self.position(&key) {
            Some(i) => {
                proof {
                    lemma_entries_map_value(sizes_of(self.entries@), i as int);
                }
                Some(self.entries[i].1)
            },
            None => None,
        }
    }

    /// The texture of a face whose plane names the texture `name`: the name,
    /// where the texture is known.
    pub fn texture_of(&self, name: &str) -> (texture: Option<String>)
        ensures
            name_view(texture) == (if self@.contains_key(name@) {
                Some(name@)
            } else {
                None::<Seq<char>>
            }),
    {
        match self.get(name) {
            Some(_) => Some(name.to_owned()),
            None => None,
        }
    }
}

/// The corners of a convex solid.
#[derive(Debug, Clone)]
pub struct ConvexCollision {
    pub points: Vec<Bits3>,
}

impl ConvexCollision {
    /// The value that holds what is given.
    pub fn new(points: Vec<Bits3>) -> (r: ConvexCollision)
        ensures
            r.points == points,
    {
        ConvexCollision { points }
    }
}

/// Where the vertices of the faces in `planes` are, one face after the other.
pub open spec fn face_points(planes: Seq<PlaneGeometry>) -> Seq<Bits3>
    decreases planes.len(),
{
    if planes.len() == 0 {
        Seq::empty()
    } else {
        face_points(planes.drop_last()) + positions(planes.last().vertices@)
    }
}

/// The condition that the point at an index occurs at no later index.
pub open spec fn last_of_its_point(points: Seq<Bits3>) -> spec_fn(int) -> bool {
    |i: int| is_last_occurrence(points, i)
}

/// The points of `points`, in their order, each once: of equal points the
/// last is kept.
pub open spec fn distinct_points(points: Seq<Bits3>) -> Seq<Bits3> {
    chosen(last_of_its_point(points), points.len() as int).map_values(|i: int| points[i])
}

/// Of the points that are kept, no two are equal.
pub proof fn lemma_distinct_points_differ(points: Seq<Bits3>, a: int, b: int)
    requires
        0 <= a < b < distinct_points(points).len(),
    ensures
        !same3(distinct_points(points)[a], distinct_points(points)[b]),
{
    let keep = last_of_its_point(points);
    let n = points.len() as int;
    lemma_chosen(keep, n);
    lemma_chosen_rises(keep, n, a, b);
    let i = chosen(keep, n)[a];
    let j = chosen(keep, n)[b];
    assert(keep(i));
    assert(!same3(points[j], points[i]));
    lemma_same3_symmetric(points[i], points[j]);
}

/// Keeps each point once: of equal points the last.
pub fn unique_points(points: &Vec<Bits3>) -> (kept: Vec<Bits3>)
    ensures
        kept@ == distinct_points(points@),
{
    let n = points.len();
    let ghost keep = last_of_its_point(points@);
    let mut kept: Vec<Bits3> = Vec::new();
    let mut i: usize = 0;
    while i < n
        invariant
            n == points@.len(),
            keep == last_of_its_point(points@),
            i <= n,
            kept@ == chosen(keep, i as int).map_values(|k: int| points@[k]),
        decreases n - i,
    {
        if occurs_last(points, i) {
            kept.push(points[i]);
        }
        i += 1;
        proof {
            assert(kept@ =~= chosen(keep, i as int).map_values(|k: int| points@[k]));
        }
    }
    kept
}

/// Where the vertices of the faces of `brush` are.
pub fn brush_points(brush: &BrushGeometry) -> (points: Vec<Bits3>)
    ensures
        points@ == face_points(brush.plane_geometry@),
{
    let planes = &brush.plane_geometry;
    let n = planes.len();
    let mut points: Vec<Bits3> = Vec::new();
    let mut f: usize = 0;
    proof {
        assert(planes@.take(0) =~= Seq::<PlaneGeometry>::empty());
    }
    while f < n
        invariant
            planes == &brush.plane_geometry,
            n == planes@.len(),
            f <= n,
            points@ == face_points(planes@.take(f as int)),
        decreases n - f,
    {
        let face = &planes[f];
        let ghost before = points@;
        proof {
            assert(planes@.take(f + 1).drop_last() =~= planes@.take(f as int));
            assert(planes@.take(f + 1).last() == planes@[f as int]);
        }
        let mut v: usize = 0;
        while v < face.vertices.len()
            invariant
                v <= face.vertices@.len(),
                points@ == before + positions(face.vertices@.take(v as int)),
            decreases face.vertices@.len() - v,
        {
            points.push(face.vertices[v].vertex);
            v += 1;
            proof {
                assert(points@ =~= before + positions(face.vertices@.take(v as int)));
            }
        }
        proof {
            assert(face.vertices@.take(face.vertices@.len() as int) =~= face.vertices@);
        }
        f += 1;
    }
    proof {
        assert(planes@.take(n as int) =~= planes@);
    }
    points
}

/// The names of the textures of the faces in `planes` that have one, in the
/// order of the faces.
pub open spec fn face_textures(planes: Seq<PlaneGeometry>) -> Seq<Seq<char>>
    decreases planes.len(),
{
    if planes.len() == 0 {
        Seq::empty()
    } else {
        match planes.last().texture {
            Some(name) => face_textures(planes.drop_last()).push(name@),
            None => face_textures(planes.drop_last()),
        }
    }
}

/// The names of the textures of the faces of the brushes, one brush after
/// the other.
pub open spec fn brush_textures(brushes: Seq<BrushGeometry>) -> Seq<Seq<char>>
    decreases brushes.len(),
{
    if brushes.len() == 0 {
        Seq::empty()
    } else {
        brush_textures(brushes.drop_last()) + face_textures(brushes.last().plane_geometry@)
    }
}

/// The indices, each moved up by `offset`.
pub open spec fn raised(indices: Seq<int>, offset: int) -> Seq<int> {
    indices.map_values(|i: int| i + offset)
}

/// The vertices of the faces with the texture `texture`, one brush after
/// the other, each brush as `gathered_brush` gives it, and the indices of
/// their triangles, each moved up by the number of vertices of the brushes
/// before its own.
pub open spec fn gathered_entity(brushes: Seq<BrushGeometry>, texture: Option<Seq<char>>) -> (
    Seq<Vertex>,
    Seq<int>,
)
    decreases brushes.len(),
{
    if brushes.len() == 0 {
        (Seq::empty(), Seq::empty())
    } else {
        let (vertices, indices) = gathered_entity(brushes.drop_last(), texture);
        let (more, triangles) = gathered_brush(brushes.last().plane_geometry@, texture);
        (vertices + more, indices + raised(triangles, vertices.len() as int))
    }
}

/// The places on the texture of all the vertices, if each has one.
pub open spec fn all_uvs(vertices: Seq<Vertex>) -> Option<Seq<Bits2>> {
    if forall|i: int| 0 <= i < vertices.len() ==> (#[trigger] vertices[i]).uv.is_some() {
        Some(vertices.map_values(|v: Vertex| v.uv.unwrap()))
    } else {
        None
    }
}

/// The mesh of the faces with the texture `texture`, where there are any.
pub open spec fn surface_of(brushes: Seq<BrushGeometry>, texture: Option<Seq<char>>) -> Option<
    MeshSurfaceView,
> {
    let (vertices, indices) = gathered_entity(brushes, texture);
    if vertices.len() == 0 {
        None
    } else {
        Some(
            MeshSurfaceView {
                texture,
                vertices: positions(vertices),
                normals: vertices.map_values(|v: Vertex| v.normal),
                tangents: vertices.map_values(|v: Vertex| v.tangent),
                uvs: all_uvs(vertices),
                indices,
            },
        )
    }
}

/// The meshes of the textures in `wanted`, in that order, without those
/// that have no face.
pub open spec fn surfaces_of(brushes: Seq<BrushGeometry>, wanted: Seq<Option<Seq<char>>>) -> Seq<
    MeshSurfaceView,
>
    decreases wanted.len(),
{
    if wanted.len() == 0 {
        Seq::empty()
    } else {
        let front = surfaces_of(brushes, wanted.drop_last());
        match surface_of(brushes, wanted.last()) {
            Some(surface) => front.push(surface),
            None => front,
        }
    }
}

/// The textures for which an entity gets a mesh, in order: each name among
/// the textures of its faces once, as `distinct_names` orders them, and last
/// the faces without a known texture.
pub open spec fn wanted_textures(brushes: Seq<BrushGeometry>) -> Seq<Option<Seq<char>>> {
    distinct_names(brush_textures(brushes)).map_values(|name: Seq<char>| Some(name)).push(None)
}

/// The meshes of an entity.
pub open spec fn visual_surfaces(brushes: Seq<BrushGeometry>) -> Seq<MeshSurfaceView> {
    surfaces_of(brushes, wanted_textures(brushes))
}

/// The geometry of an entity: that of its brushes.
#[derive(Debug, Clone)]
pub struct Geometry {
    pub brush_geometry: Vec<BrushGeometry>,
}

impl Geometry {
    /// Every index of every face names a corner of its face.
    pub open spec fn wf(&self) -> bool {
        forall|b: int|
            0 <= b < self.brush_geometry@.len() ==> (#[trigger] self.brush_geometry@[b]).wf()
    }

    /// The value that holds what is given.
    pub fn new(brush_geometry: Vec<BrushGeometry>) -> (r: Geometry)
        ensures
            r.brush_geometry == brush_geometry,
    {
        Geometry { brush_geometry }
    }

    /// For each brush, the corners of the solid that it is: where the
    /// vertices of its faces are, each point once.
    pub fn get_collision_geometry(&self) -> (solids: Vec<ConvexCollision>)
        ensures
            solids@.len() == self.brush_geometry@.len(),
            forall|b: int|
                0 <= b < solids@.len() ==> (#[trigger] solids@[b]).points@ == distinct_points(
                    face_points(self.brush_geometry@[b].plane_geometry@),
                ),
    {
        let n = self.brush_geometry.len();
        let mut solids: Vec<ConvexCollision> = Vec::new();
        let mut b: usize = 0;
        while b < n
            invariant
                n == self.brush_geometry@.len(),
                b <= n,
                solids@.len() == b,
                forall|k: int|
                    0 <= k < b ==> (#[trigger] solids@[k]).points@ == distinct_points(
                        face_points(self.brush_geometry@[k].plane_geometry@),
                    ),
            decreases n - b,
        {
            let points = brush_points(&self.brush_geometry[b]);
            solids.push(ConvexCollision::new(unique_points(&points)));
            b += 1;
        }
        solids
    }

    /// The names of the textures of the faces that have one.
    pub fn texture_names(&self) -> (names: Vec<String>)
        ensures
            names_of(names@) == brush_textures(self.brush_geometry@),
    {
        let brushes = &self.brush_geometry;
        let n = brushes.len();
        let mut names: Vec<String> = Vec::new();
        let mut b: usize = 0;
        proof {
            assert(brushes@.take(0) =~= Seq::<BrushGeometry>::empty());
            assert(names_of(names@) =~= Seq::<Seq<char>>::empty());
        }
        while b < n
            invariant
                brushes == &self.brush_geometry,
                n == brushes@.len(),
                b <= n,
                names_of(names@) == brush_textures(brushes@.take(b as int)),
            decreases n - b,
        {
            let planes = &brushes[b].plane_geometry;
            let ghost before = names_of(names@);
            proof {
                assert(brushes@.take(b + 1).drop_last() =~= brushes@.take(b as int));
                assert(brushes@.take(b + 1).last() == brushes@[b as int]);
                assert(planes@.take(0) =~= Seq::<PlaneGeometry>::empty());
                assert(before + face_textures(planes@.take(0)) =~= before);
            }
            let mut f: usize = 0;
            while f < planes.len()
                invariant
                    f <= planes@.len(),
                    names_of(names@) == before + face_textures(planes@.take(f as int)),
                decreases planes@.len() - f,
            {
                let ghost so_far = names@;
                proof {
                    assert(planes@.take(f + 1).drop_last() =~= planes@.take(f as int));
                    assert(planes@.take(f + 1).last() == planes@[f as int]);
                }
                match &planes[f].texture {
                    Some(name) => {
                        let copy = name.clone();
                        names.push(copy);
                        proof {
                            assert(names_of(names@) =~= names_of(so_far).push(name@));
                            assert(names_of(names@) =~= before + face_textures(
                                planes@.take(f + 1),
                            ));
                        }
                    },
                    None => {},
                }
                f += 1;
            }
            proof {
                assert(planes@.take(planes@.len() as int) =~= planes@);
            }
            b += 1;
        }
        proof {
            assert(brushes@.take(n as int) =~= brushes@);
        }
        names
    }

    /// The vertices and triangles of the faces with the texture `texture`.
    pub fn gather_entity_geometry(&self, texture: &Option<String>) -> (r: (
        Vec<Vertex>,
        Vec<usize>,
    ))
        requires
            self.wf(),
        ensures
            (r.0@, as_ints(r.1@)) == gathered_entity(self.brush_geometry@, name_view(*texture)),
            forall|k: int| 0 <= k < r.1@.len() ==> (#[trigger] r.1@[k]) < r.0@.len(),
    {
        let brushes = &self.brush_geometry;
        let n = brushes.len();
        let ghost wanted = name_view(*texture);
        let mut vertices: Vec<Vertex> = Vec::new();
        let mut indices: Vec<usize> = Vec::new();
        let mut b: usize = 0;
        proof {
            assert(brushes@.take(0) =~= Seq::<BrushGeometry>::empty());
            assert(as_ints(indices@) =~= Seq::<int>::empty());
        }
        while b < n
            invariant
                self.wf(),
                brushes == &self.brush_geometry,
                n == brushes@.len(),
                wanted == name_view(*texture),
                b <= n,
                (vertices@, as_ints(indices@)) == gathered_entity(brushes@.take(b as int), wanted),
                forall|k: int| 0 <= k < indices@.len() ==> (#[trigger] indices@[k]) < vertices@.len(),
            decreases n - b,
        {
            proof {
                assert(brushes@.take(b + 1).drop_last() =~= brushes@.take(b as int));
                assert(brushes@.take(b + 1).last() == brushes@[b as int]);
                assert(brushes@[b as int].wf());
            }
            let (more, triangles) = brushes[b].gather_brush_geometry(texture);
            let offset = vertices.len();
            let ghost vertices_before = vertices@;
            let ghost indices_before = indices@;
            let mut v: usize = 0;
            while v < more.len()
                invariant
                    v <= more@.len(),
                    vertices@ == vertices_before + more@.take(v as int),
                decreases more@.len() - v,
            {
                vertices.push(more[v]);
                v += 1;
                proof {
                    assert(vertices@ =~= vertices_before + more@.take(v as int));
                }
            }
            proof {
                assert(more@.take(more@.len() as int) =~= more@);
                assert(as_ints(indices@) =~= as_ints(indices_before) + raised(
                    as_ints(triangles@).take(0),
                    offset as int,
                ));
            }
            let total = vertices.len();
            let mut t: usize = 0;
            while t < triangles.len()
                invariant
                    total == vertices@.len(),
                    offset == vertices_before.len(),
                    vertices@ == vertices_before + more@,
                    forall|k: int| 0 <= k < triangles@.len() ==> (#[trigger] triangles@[k]) < more@.len(),
                    t <= triangles@.len(),
                    as_ints(indices@) == as_ints(indices_before) + raised(
                        as_ints(triangles@).take(t as int),
                        offset as int,
                    ),
                    forall|k: int| 0 <= k < indices@.len() ==> (#[trigger] indices@[k]) < vertices@.len(),
                decreases triangles@.len() - t,
            {
                let ghost so_far = indices@;
                let index = triangles[t];
                assert(index < more@.len());
                assert(total == offset + more@.len());
                indices.push(index + offset);
                t += 1;
                proof {
                    assert(as_ints(triangles@).take(t as int) =~= as_ints(triangles@).take(
                        t - 1,
                    ).push(index as int));
                    assert(raised(as_ints(triangles@).take(t as int), offset as int) =~= raised(
                        as_ints(triangles@).take(t - 1),
                        offset as int,
                    ).push(index + offset));
                    assert(as_ints(indices@) =~= as_ints(so_far).push(index + offset));
                    assert(as_ints(indices@) =~= as_ints(indices_before) + raised(
                        as_ints(triangles@).take(t as int),
                        offset as int,
                    ));
                }
            }
            proof {
                assert(as_ints(triangles@).take(triangles@.len() as int) =~= as_ints(triangles@));
            }
            b += 1;
        }
        proof {
            assert(brushes@.take(n as int) =~= brushes@);
        }
        (vertices, indices)
    }

    /// The mesh of the faces with the texture `texture`, where there are any.
    pub fn build_mesh_surface(&self, texture: Option<String>) -> (surface: Option<MeshSurface>)
        requires
            self.wf(),
        ensures
            match surface {
                Some(mesh) => surface_of(self.brush_geometry@, name_view(texture)) == Some(mesh@),
                None => surface_of(self.brush_geometry@, name_view(texture)).is_none(),
            },
    {
        let (vertices, indices) = self.gather_entity_geometry(&texture);
        let n = vertices.len();
        if n == 0 {
            return None;
        }
        let mut verts: Vec<Bits3> = Vec::new();
        let mut normals: Vec<Bits3> = Vec::new();
        let mut tangents: Vec<(Bits3, u32)> = Vec::new();
        let mut uvs: Option<Vec<Bits2>> = Some(Vec::new());
        let mut i: usize = 0;
        while i < n
            invariant
                n == vertices@.len(),
                i <= n,
                verts@ == positions(vertices@.take(i as int)),
                normals@ == vertices@.take(i as int).map_values(|v: Vertex| v.normal),
                tangents@ == vertices@.take(i as int).map_values(|v: Vertex| v.tangent),
                uvs_view(uvs) == all_uvs(vertices@.take(i as int)),
            decreases n - i,
        {
            let vertex = &vertices[i];
            let ghost head = vertices@.take(i as int);
            let ghost next = vertices@.take(i + 1);
            proof {
                assert(next =~= head.push(*vertex));
                assert(forall|k: int| 0 <= k < head.len() ==> head[k] == next[k]);
            }
            verts.push(vertex.vertex);
            normals.push(vertex.normal);
            tangents.push(vertex.tangent);
            uvs = match (uvs, vertex.uv) {
                (Some(list), Some(uv)) => {
                    let mut list = list;
                    list.push(uv);
                    proof {
                        assert(list@ =~= next.map_values(|v: Vertex| v.uv.unwrap()));
                    }
                    Some(list)
                },
                (Some(_), None) => {
                    proof {
                        assert(next[i as int].uv.is_none());
                    }
                    None
                },
                (None, _) => {
                    proof {
                        let k = choose|k: int| 0 <= k < head.len() && !(#[trigger] head[k]).uv.is_some();
                        assert(!next[k].uv.is_some());
                    }
                    None
                },
            };
            i += 1;
            proof {
                assert(verts@ =~= positions(next));
                assert(normals@ =~= next.map_values(|v: Vertex| v.normal));
                assert(tangents@ =~= next.map_values(|v: Vertex| v.tangent));
            }
        }
        proof {
            assert(vertices@.take(n as int) =~= vertices@);
        }
        Some(MeshSurface::new(texture, verts, normals, tangents, uvs, indices))
    }

    /// The meshes of the entity: one for each texture that a face has, and
    /// one for the faces without a known texture.
    pub fn get_visual_geometry(&self) -> (surfaces: Vec<MeshSurface>)
        requires
            self.wf(),
        ensures
            views(surfaces@) == visual_surfaces(
                self.brush_geometry@,
            ),
    {
        let all = self.texture_names();
        let names = unique_names(&all);
        let ghost brushes = self.brush_geometry@;
        let ghost wanted = wanted_textures(brushes);
        let n = names.len();
        let mut surfaces: Vec<MeshSurface> = Vec::new();
        let mut i: usize = 0;
        proof {
            assert(wanted.take(0) =~= Seq::<Option<Seq<char>>>::empty());
            assert(views(surfaces@) =~= Seq::<
                MeshSurfaceView,
            >::empty());
        }
        while i < n
            invariant
                self.wf(),
                brushes == self.brush_geometry@,
                wanted == wanted_textures(brushes),
                names_of(names@) == distinct_names(brush_textures(brushes)),
                n == names@.len(),
                i <= n,
                views(surfaces@) == surfaces_of(
                    brushes,
                    wanted.take(i as int),
                ),
            decreases n - i,
        {
            let name = names[i].clone();
            let ghost before = surfaces@;
            proof {
                assert(wanted.take(i + 1).drop_last() =~= wanted.take(i as int));
                assert(names_of(names@)[i as int] == names@[i as int]@);
                assert(wanted.take(i + 1).last() == Some(name@));
            }
            match self.build_mesh_surface(Some(name)) {
                Some(surface) => {
                    surfaces.push(surface);
                    proof {
                        lemma_views_push(before, surface);
                        assert(views(surfaces@)
                            =~= views(before).push(surface@));
                    }
                },
                None => {},
            }
            i += 1;
        }
        let ghost before = surfaces@;
        proof {
            assert(wanted.drop_last() =~= wanted.take(n as int));
            assert(wanted.last() == None::<Seq<char>>);
        }
        match self.build_mesh_surface(None) {
            Some(surface) => {
                surfaces.push(surface);
                proof {
                    lemma_views_push(before, surface);
                    assert(views(surfaces@)
                        =~= views(before).push(surface@));
                }
            },
            None => {},
        }
        surfaces
    }
}

} // verus!
