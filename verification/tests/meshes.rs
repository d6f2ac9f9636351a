use gamekit::meshes::{cone_indices, indices_u32, truncated};
use gamekit::valve_maps::generate::{is_smoothed, smoothing_angle};
use gamekit::valve_maps::parse::formats::fields::Fields;

/// The triangles of a cone, point by point round the rim.
fn cone_by_points(subdivisions: usize) -> Vec<u32> {
    let mut indices: Vec<u32> = Vec::new();
    for point in 2..subdivisions + 2 {
        let top = 0;
        let bottom = 1;
        let left = point + 1;
        let right = point;
        indices.push(top as u32);
        indices.push(left as u32);
        indices.push(right as u32);
        indices.push(bottom as u32);
        indices.push(right as u32);
        indices.push(left as u32);
    }
    indices
}

#[test]
fn a_cone_has_two_triangles_for_each_step_round_its_rim() {
    assert_eq!(cone_indices(0), Vec::<u32>::new());
    assert_eq!(cone_indices(1), vec![0, 3, 2, 1, 2, 3]);
    assert_eq!(cone_indices(2), vec![0, 3, 2, 1, 2, 3, 0, 4, 3, 1, 3, 4]);
    for subdivisions in 0..40 {
        assert_eq!(cone_indices(subdivisions), cone_by_points(subdivisions));
    }
    assert_eq!(cone_indices(32).len(), 192);
}

#[test]
fn indices_keep_their_low_32_bits() {
    assert_eq!(truncated(0), 0);
    assert_eq!(truncated(7), 7);
    assert_eq!(truncated(u32::MAX as usize), u32::MAX);
    let wide = (u32::MAX as u64 + 6) as usize;
    assert_eq!(truncated(wide), wide as u32);
    assert_eq!(indices_u32(&vec![2, 1, 0, wide]), vec![2, 1, 0, wide as u32]);
    assert_eq!(indices_u32(&Vec::new()), Vec::<u32>::new());
}

#[test]
fn an_entity_is_smoothed_where_phong_is_one() {
    let plain = Fields::new();
    assert!(!is_smoothed(&plain));
    assert_eq!(smoothing_angle(&plain), None);
    let smooth = Fields::new()
        .insert("_phong".to_string(), "1".to_string())
        .insert("_phong_angle".to_string(), "89.5".to_string());
    assert!(is_smoothed(&smooth));
    assert_eq!(smoothing_angle(&smooth), Some("89.5"));
    let off = Fields::new().insert("_phong".to_string(), "0".to_string());
    assert!(!is_smoothed(&off));
    let odd = Fields::new().insert("_phong".to_string(), "1.0".to_string());
    assert!(!is_smoothed(&odd));
}
