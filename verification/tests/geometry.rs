use gamekit::valve_maps::convert::MeshSurface;
use gamekit::valve_maps::generate::brush::{filter_vertices, same_name, unique, BrushGeometry};
use gamekit::valve_maps::generate::brush_plane::{
    fan_indices, unique_vertices, winding_order, PlaneGeometry,
};
use gamekit::valve_maps::generate::scalar::{
    occurs_last, scalar_eq, scalar_is_nan, scalar_place, Bits2, Bits3,
};
use gamekit::valve_maps::generate::texture_filter::{unique as unique_texture, unique_names};
use gamekit::valve_maps::generate::{
    brush_points, unique_points, ConvexCollision, Geometry, TextureInfo, TextureSize, Vertex,
};

fn bits3(x: f32, y: f32, z: f32) -> Bits3 {
    Bits3::new(x.to_bits(), y.to_bits(), z.to_bits())
}

fn vertex(x: f32, y: f32, z: f32, n: f32, uv: Option<(f32, f32)>) -> Vertex {
    Vertex::new(
        bits3(x, y, z),
        bits3(0.0, 0.0, n),
        (bits3(1.0, 0.0, 0.0), (-1.0f32).to_bits()),
        uv.map(|(u, v)| Bits2::new(u.to_bits(), v.to_bits())),
    )
}

fn floats() -> Vec<f32> {
    vec![
        0.0,
        -0.0,
        1.0,
        -1.0,
        0.5,
        16.0,
        1.0e-40,
        -1.0e-40,
        f32::MIN_POSITIVE,
        f32::MAX,
        f32::MIN,
        f32::INFINITY,
        f32::NEG_INFINITY,
        f32::NAN,
        -f32::NAN,
        f32::from_bits(0x7f80_0001),
        f32::from_bits(0xffc0_1234),
        f32::EPSILON,
        0.001,
    ]
}

#[test]
fn coordinates_are_equal_as_numbers_are() {
    for a in floats() {
        for b in floats() {
            assert_eq!(scalar_eq(a.to_bits(), b.to_bits()), a == b, "{:?} and {:?}", a, b);
        }
    }
}

#[test]
fn zeros_are_equal_and_nan_is_not() {
    assert!(scalar_eq(0x0000_0000, 0x8000_0000));
    assert!(!scalar_eq(0x7fc0_0000, 0x7fc0_0000));
    assert!(scalar_eq(0x7f80_0000, 0x7f80_0000));
    assert!(!scalar_eq(0x7f80_0000, 0xff80_0000));
    assert!(bits3(0.0, 1.0, 2.0).same(&bits3(-0.0, 1.0, 2.0)));
    assert!(!bits3(0.0, 1.0, f32::NAN).same(&bits3(0.0, 1.0, f32::NAN)));
    assert!(!Bits2::new(1, 2).same(&Bits2::new(1, 3)));
}

#[test]
fn vertices_are_equal_in_all_they_hold() {
    let a = vertex(1.0, 2.0, 3.0, 1.0, Some((0.5, 0.5)));
    assert!(a.same(&a));
    assert!(a.same(&vertex(1.0, 2.0, 3.0, 1.0, Some((0.5, 0.5)))));
    assert!(!a.same(&vertex(1.0, 2.0, 3.0, -1.0, Some((0.5, 0.5)))));
    assert!(!a.same(&vertex(1.0, 2.0, 3.0, 1.0, None)));
    assert!(!a.same(&vertex(1.0, 2.0, 3.5, 1.0, Some((0.5, 0.5)))));
    let none = vertex(1.0, 2.0, 3.0, 1.0, None);
    assert!(none.same(&none));
    let mut other = a;
    other.tangent.1 = 1.0f32.to_bits();
    assert!(!a.same(&other));
}

/// The triangles of a face with `n` corners, by the fan and its reversal.
fn fan_by_reversal(n: usize) -> Vec<usize> {
    let mut indices: Vec<usize> = if n < 3 {
        Vec::new()
    } else {
        (0..n - 2).flat_map(|i| vec![0, i + 1, i + 2]).collect()
    };
    indices.reverse();
    indices
}

#[test]
fn fan_indices_are_the_fan_read_backwards() {
    assert_eq!(fan_indices(0), Vec::<usize>::new());
    assert_eq!(fan_indices(2), Vec::<usize>::new());
    assert_eq!(fan_indices(3), vec![2, 1, 0]);
    assert_eq!(fan_indices(4), vec![3, 2, 0, 2, 1, 0]);
    assert_eq!(fan_indices(5), vec![4, 3, 0, 3, 2, 0, 2, 1, 0]);
    for n in 0..40 {
        assert_eq!(fan_indices(n), fan_by_reversal(n));
    }
}

#[test]
fn of_vertices_at_one_position_the_last_is_kept() {
    let all = vec![
        vertex(0.0, 0.0, 0.0, 1.0, None),
        vertex(1.0, 0.0, 0.0, 1.0, None),
        vertex(-0.0, 0.0, 0.0, 2.0, None),
        vertex(1.0, 0.0, 0.0, 3.0, None),
        vertex(f32::NAN, 0.0, 0.0, 4.0, None),
        vertex(f32::NAN, 0.0, 0.0, 5.0, None),
        vertex(2.0, 0.0, 0.0, 6.0, None),
    ];
    let kept = unique_vertices(&all);
    let normals: Vec<f32> = kept.iter().map(|v| f32::from_bits(v.normal.z)).collect();
    assert_eq!(normals, vec![2.0, 3.0, 4.0, 5.0, 6.0]);
    assert!(unique_vertices(&Vec::new()).is_empty());
}

#[test]
fn of_equal_points_the_last_is_kept() {
    let points = vec![bits3(1.0, 1.0, 1.0), bits3(2.0, 2.0, 2.0), bits3(1.0, 1.0, 1.0)];
    assert!(!occurs_last(&points, 0));
    assert!(occurs_last(&points, 1));
    assert!(occurs_last(&points, 2));
    assert_eq!(unique_points(&points), vec![bits3(2.0, 2.0, 2.0), bits3(1.0, 1.0, 1.0)]);
}

/// The vertices and indices that stay, by the steps of the loop that
/// renumbers in place.
fn filter_in_place(vertices: &[Vertex], indices: Vec<usize>) -> (Vec<Vertex>, Vec<usize>) {
    let mut indices = indices;
    let mut new_indices: Vec<usize> = Vec::new();
    let mut new_vertices: Vec<Vertex> = Vec::new();
    for (i, v) in vertices.iter().enumerate() {
        let first = vertices.iter().position(|comp| comp.same(v));
        if first.is_none() || first.unwrap() >= i {
            new_indices.push(i);
            new_vertices.push(*v);
        } else {
            let position = vertices.iter().position(|comp| comp.vertex.same(&v.vertex)).unwrap();
            indices = indices.iter().map(|index| if *index == i { position } else { *index }).collect();
        }
    }
    let indices: Vec<usize> =
        indices.iter().flat_map(|index| new_indices.iter().position(|comp| comp == index)).collect();
    (new_vertices, indices)
}

fn same_list(a: &[Vertex], b: &[Vertex]) -> bool {
    a.len() == b.len()
        && a.iter().zip(b).all(|(x, y)| {
            x.vertex == y.vertex && x.normal == y.normal && x.tangent == y.tangent && x.uv == y.uv
        })
}

#[test]
fn filter_vertices_drops_equal_vertices_and_renumbers() {
    let a = vertex(0.0, 0.0, 0.0, 1.0, None);
    let b = vertex(1.0, 0.0, 0.0, 1.0, None);
    let c = vertex(1.0, 1.0, 0.0, 1.0, None);
    let d = vertex(0.0, 1.0, 0.0, 1.0, None);
    let vertices = vec![a, b, c, a, c, d];
    let (kept, indices) = filter_vertices(&vertices, vec![0, 1, 2, 3, 4, 5]);
    assert!(same_list(&kept, &[a, b, c, d]));
    assert_eq!(indices, vec![0, 1, 2, 0, 2, 3]);
}

#[test]
fn filter_vertices_moves_an_index_to_the_first_vertex_at_its_position() {
    let first = vertex(0.0, 0.0, 0.0, 1.0, None);
    let turned = vertex(0.0, 0.0, 0.0, 2.0, None);
    let other = vertex(5.0, 0.0, 0.0, 1.0, None);
    let vertices = vec![first, turned, other, turned];
    let (kept, indices) = filter_vertices(&vertices, vec![3, 2, 1, 0, 9]);
    assert!(same_list(&kept, &[first, turned, other]));
    assert_eq!(indices, vec![0, 2, 1, 0]);
}

#[test]
fn filter_vertices_agrees_with_renumbering_in_place() {
    let pool = vec![
        vertex(0.0, 0.0, 0.0, 1.0, None),
        vertex(0.0, 0.0, 0.0, 2.0, None),
        vertex(-0.0, 0.0, 0.0, 1.0, None),
        vertex(1.0, 0.0, 0.0, 1.0, Some((0.0, 1.0))),
        vertex(1.0, 0.0, 0.0, 1.0, Some((0.0, 2.0))),
        vertex(f32::NAN, 0.0, 0.0, 1.0, None),
        vertex(2.0, 0.0, 0.0, f32::NAN, None),
    ];
    let mut seed: u32 = 12345;
    let mut next = move |bound: usize| {
        seed = seed.wrapping_mul(1664525).wrapping_add(1013904223);
        (seed >> 8) as usize % bound
    };
    for _ in 0..300 {
        let n = next(9);
        let vertices: Vec<Vertex> = (0..n).map(|_| pool[next(pool.len())]).collect();
        let m = next(12);
        let indices: Vec<usize> = (0..m).map(|_| next(n + 2)).collect();
        let (kept, renumbered) = filter_vertices(&vertices, indices.clone());
        let (expected_kept, expected) = filter_in_place(&vertices, indices);
        assert!(same_list(&kept, &expected_kept));
        assert_eq!(renumbered, expected);
        assert!(renumbered.iter().all(|i| *i < kept.len()));
        for (i, v) in vertices.iter().enumerate() {
            let first = vertices.iter().position(|comp| comp.same(v));
            assert_eq!(unique(i, v, &vertices), first.is_none() || first.unwrap() >= i);
        }
    }
}

fn face(vertices: Vec<Vertex>, texture: Option<&str>) -> PlaneGeometry {
    let indices = fan_indices(vertices.len());
    PlaneGeometry::new(vertices, indices, texture.map(String::from))
}

fn two_faces() -> BrushGeometry {
    let a = vertex(0.0, 0.0, 0.0, 1.0, None);
    let b = vertex(1.0, 0.0, 0.0, 1.0, None);
    let c = vertex(1.0, 1.0, 0.0, 1.0, None);
    let d = vertex(0.0, 1.0, 0.0, 1.0, None);
    let e = vertex(0.0, 0.0, 1.0, 1.0, None);
    BrushGeometry::new(vec![
        face(vec![a, b, c, d], Some("stone")),
        face(vec![a, e, d], Some("brick")),
        face(vec![d, c, e], Some("stone")),
        face(vec![a, b, e], None),
    ])
}

#[test]
fn gather_faces_joins_the_faces_of_one_texture() {
    let brush = two_faces();
    let (vertices, indices) = brush.gather_faces(&Some("stone".to_string()));
    assert_eq!(vertices.len(), 7);
    assert_eq!(indices, vec![3, 2, 0, 2, 1, 0, 6, 5, 4]);
    let (vertices, indices) = brush.gather_faces(&None);
    assert_eq!(vertices.len(), 3);
    assert_eq!(indices, vec![2, 1, 0]);
    let (vertices, indices) = brush.gather_faces(&Some("wood".to_string()));
    assert!(vertices.is_empty() && indices.is_empty());
}

#[test]
fn gather_brush_geometry_shares_equal_vertices() {
    let brush = two_faces();
    let (vertices, indices) = brush.gather_brush_geometry(&Some("stone".to_string()));
    assert_eq!(vertices.len(), 5);
    assert_eq!(indices, vec![3, 2, 0, 2, 1, 0, 4, 2, 3]);
}

#[test]
fn names_are_the_same_text_or_both_missing() {
    assert!(same_name(&None, &None));
    assert!(same_name(&Some("a".to_string()), &Some("a".to_string())));
    assert!(!same_name(&Some("a".to_string()), &Some("b".to_string())));
    assert!(!same_name(&Some("a".to_string()), &None));
    assert!(!same_name(&None, &Some(String::new())));
}

#[test]
fn texture_names_keep_their_last_place() {
    let names: Vec<String> = ["b", "a", "b", "c", "a"].iter().map(|s| s.to_string()).collect();
    assert!(!unique_texture(&names, 0, &names[0]));
    assert!(!unique_texture(&names, 1, &names[1]));
    assert!(unique_texture(&names, 2, &names[2]));
    assert!(unique_texture(&names, 3, &names[3]));
    assert!(unique_texture(&names, 4, &names[4]));
    assert!(unique_texture(&names, 9, &names[0]));
    assert!(unique_texture(&names, 2, &"z".to_string()));
    assert!(!unique_texture(&names, 2, &"c".to_string()));
    assert_eq!(unique_names(&names), vec!["b", "c", "a"]);
    assert!(unique_names(&Vec::new()).is_empty());
}

#[test]
fn texture_info_holds_one_size_for_each_name() {
    let info = TextureInfo::new().add_texture("stone", 64, 32).add_texture("brick", 16, 16);
    assert_eq!(info.get("stone"), Some(TextureSize::new(64, 32)));
    assert_eq!(info.get("brick"), Some(TextureSize { width: 16, height: 16 }));
    assert_eq!(info.get("wood"), None);
    let info = info.add_texture("stone", 128, 128);
    assert_eq!(info.get("stone"), Some(TextureSize::new(128, 128)));
    assert_eq!(info.get("brick"), Some(TextureSize::new(16, 16)));
    assert_eq!(info.texture_of("stone"), Some("stone".to_string()));
    assert_eq!(info.texture_of("__TB_empty"), None);
    assert_eq!(TextureInfo::new().get(""), None);
}

#[test]
fn collision_geometry_has_each_corner_once() {
    let geometry = Geometry::new(vec![two_faces(), BrushGeometry::new(Vec::new())]);
    assert_eq!(brush_points(&geometry.brush_geometry[0]).len(), 13);
    let solids: Vec<ConvexCollision> = geometry.get_collision_geometry();
    assert_eq!(solids.len(), 2);
    assert_eq!(
        solids[0].points,
        vec![
            bits3(0.0, 1.0, 0.0),
            bits3(1.0, 1.0, 0.0),
            bits3(0.0, 0.0, 0.0),
            bits3(1.0, 0.0, 0.0),
            bits3(0.0, 0.0, 1.0),
        ]
    );
    assert!(solids[1].points.is_empty());
    assert_eq!(ConvexCollision::new(vec![bits3(1.0, 2.0, 3.0)]).points.len(), 1);
}

#[test]
fn visual_geometry_has_a_mesh_for_each_texture() {
    let geometry = Geometry::new(vec![two_faces(), two_faces()]);
    assert_eq!(geometry.texture_names(), vec!["stone", "brick", "stone", "stone", "brick", "stone"]);
    let surfaces: Vec<MeshSurface> = geometry.get_visual_geometry();
    let textures: Vec<Option<&str>> = surfaces.iter().map(|s| s.texture.as_deref()).collect();
    assert_eq!(textures, vec![Some("brick"), Some("stone"), None]);
    let stone = &surfaces[1];
    assert_eq!(stone.vertices.len(), 10);
    assert_eq!(stone.normals.len(), 10);
    assert_eq!(stone.tangents.len(), 10);
    assert_eq!(stone.uvs, Some(Vec::new()).filter(|_: &Vec<Bits2>| false));
    assert_eq!(
        stone.indices,
        vec![3, 2, 0, 2, 1, 0, 4, 2, 3, 8, 7, 5, 7, 6, 5, 9, 7, 8]
    );
    assert_eq!(stone.vertices[5], bits3(0.0, 0.0, 0.0));
    let plain = &surfaces[2];
    assert_eq!(plain.indices, vec![2, 1, 0, 5, 4, 3]);
}

#[test]
fn visual_geometry_of_nothing_is_nothing() {
    assert!(Geometry::new(Vec::new()).get_visual_geometry().is_empty());
    let empty = Geometry::new(vec![BrushGeometry::new(vec![face(Vec::new(), Some("stone"))])]);
    assert!(empty.get_visual_geometry().is_empty());
    assert!(empty.build_mesh_surface(Some("stone".to_string())).is_none());
}

#[test]
fn a_mesh_has_places_on_the_texture_only_if_every_vertex_has() {
    let with = vertex(0.0, 0.0, 0.0, 1.0, Some((0.25, 0.75)));
    let also = vertex(1.0, 0.0, 0.0, 1.0, Some((0.5, 0.5)));
    let without = vertex(2.0, 0.0, 0.0, 1.0, None);
    let all = Geometry::new(vec![BrushGeometry::new(vec![face(vec![with, also, with], Some("a"))])]);
    let mesh = all.build_mesh_surface(Some("a".to_string())).unwrap();
    assert_eq!(
        mesh.uvs,
        Some(vec![
            Bits2::new(0.25f32.to_bits(), 0.75f32.to_bits()),
            Bits2::new(0.5f32.to_bits(), 0.5f32.to_bits()),
        ])
    );
    assert_eq!(mesh.indices, vec![0, 1, 0]);
    let some = Geometry::new(vec![BrushGeometry::new(vec![face(vec![with, without, also], Some("a"))])]);
    let mesh = some.build_mesh_surface(Some("a".to_string())).unwrap();
    assert_eq!(mesh.uvs, None);
    assert_eq!(mesh.vertices.len(), 3);
    let (vertices, indices) = some.gather_entity_geometry(&Some("a".to_string()));
    assert_eq!(vertices.len(), 3);
    assert_eq!(indices, vec![2, 1, 0]);
}

#[test]
fn a_mesh_surface_holds_what_it_is_given() {
    let surface = MeshSurface::new(
        Some("a".to_string()),
        vec![bits3(1.0, 2.0, 3.0)],
        vec![bits3(0.0, 0.0, 1.0)],
        vec![(bits3(1.0, 0.0, 0.0), 1.0f32.to_bits())],
        None,
        vec![0, 0, 0],
    );
    assert_eq!(surface.texture.as_deref(), Some("a"));
    assert_eq!(surface.vertices, vec![bits3(1.0, 2.0, 3.0)]);
    assert_eq!(surface.indices, vec![0, 0, 0]);
    assert_eq!(surface.uvs, None);
}

#[test]
fn places_order_coordinates_as_numbers_are_ordered() {
    for a in floats() {
        assert_eq!(scalar_is_nan(a.to_bits()), a.is_nan());
        for b in floats() {
            if a.is_nan() || b.is_nan() {
                continue;
            }
            assert_eq!(scalar_place(a.to_bits()) < scalar_place(b.to_bits()), a < b, "{:?} {:?}", a, b);
            assert_eq!(scalar_place(a.to_bits()) == scalar_place(b.to_bits()), a == b);
        }
    }
    assert_eq!(scalar_place(0x8000_0000), 0);
    assert_eq!(scalar_place(1.0f32.to_bits()), 0x3f80_0000);
    assert_eq!(scalar_place((-1.0f32).to_bits()), -0x3f80_0000);
}

#[test]
fn corners_wind_from_the_greatest_angle_down() {
    let angles: Vec<u32> = [0.5f32, -1.0, 3.0, 0.5, -0.0, 0.0, 3.0].iter().map(|a| a.to_bits()).collect();
    assert_eq!(winding_order(&angles), Some(vec![2, 6, 0, 3, 4, 5, 1]));
    assert_eq!(winding_order(&Vec::new()), Some(Vec::new()));
    let with_nan: Vec<u32> = [0.5f32, f32::NAN, 1.0].iter().map(|a| a.to_bits()).collect();
    assert_eq!(winding_order(&with_nan), None);
}

#[test]
fn winding_order_is_the_stable_sort_by_falling_angle() {
    let pool = [0.0f32, -0.0, 1.0, -1.0, 0.5, 3.1, -3.1, 2.0, f32::INFINITY, f32::NEG_INFINITY, 1.0e-40];
    let mut seed: u32 = 99;
    let mut next = move |bound: usize| {
        seed = seed.wrapping_mul(1664525).wrapping_add(1013904223);
        (seed >> 8) as usize % bound
    };
    for _ in 0..300 {
        let n = next(10);
        let angles: Vec<f32> = (0..n).map(|_| pool[next(pool.len())]).collect();
        let mut expected: Vec<usize> = (0..n).collect();
        expected.sort_by(|a, b| angles[*b].partial_cmp(&angles[*a]).unwrap_or(std::cmp::Ordering::Equal));
        let bits: Vec<u32> = angles.iter().map(|a| a.to_bits()).collect();
        assert_eq!(winding_order(&bits), Some(expected));
    }
}
