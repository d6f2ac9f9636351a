//! What the geometry of an entity is handed on as.

use vstd::prelude::*;
use vstd::string::*;
use crate::valve_maps::generate::brush::as_ints;
use crate::valve_maps::generate::brush_plane::name_view;
use crate::valve_maps::generate::scalar::{Bits2, Bits3};

verus! {

/// The faces of an entity that share a texture, as one mesh: for each
/// vertex its position, normal and tangent, and its place on the texture if
/// every vertex has one; and the corners of the triangles, as indices of
/// vertices.
#[derive(Debug)]
pub struct MeshSurface {
    pub texture: Option<String>,
    pub vertices: Vec<Bits3>,
    pub normals: Vec<Bits3>,
    pub tangents: Vec<(Bits3, u32)>,
    pub uvs: Option<Vec<Bits2>>,
    pub indices: Vec<usize>,
}

/// What a mesh holds, with its texture's name as text.
pub struct MeshSurfaceView {
    pub texture: Option<Seq<char>>,
    pub vertices: Seq<Bits3>,
    pub normals: Seq<Bits3>,
    pub tangents: Seq<(Bits3, u32)>,
    pub uvs: Option<Seq<Bits2>>,
    pub indices: Seq<int>,
}

/// The places as a sequence.
pub open spec fn uvs_view(uvs: Option<Vec<Bits2>>) -> Option<Seq<Bits2>> {
    match uvs {
        Some(list) => Some(list@),
        None => None,
    }
}

impl View for MeshSurface {
    type V = MeshSurfaceView;

    open spec fn view(&self) -> MeshSurfaceView {
        MeshSurfaceView {
            texture: name_view(self.texture),
            vertices: self.vertices@,
            normals: self.normals@,
            tangents: self.tangents@,
            uvs: uvs_view(self.uvs),
            indices: as_ints(self.indices@),
        }
    }
}

impl MeshSurface {
    /// The mesh that holds what is given.
    pub fn new(
        texture: Option<String>,
        vertices: Vec<Bits3>,
        normals: Vec<Bits3>,
        tangents: Vec<(Bits3, u32)>,
        uvs: Option<Vec<Bits2>>,
        indices: Vec<usize>,
    ) -> (r: MeshSurface)
        ensures
            r.texture == texture,
            r.vertices == vertices,
            r.normals == normals,
            r.tangents == tangents,
            r.uvs == uvs,
            r.indices == indices,
    {
        MeshSurface { texture, vertices, normals, tangents, uvs, indices }
    }
}

} // verus!
