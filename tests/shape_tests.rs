use glam::{Vec2, Vec4};
use simple_designer::shape::{group_by_material, sort_by_z_order, MaterialType, Shape};

#[test]
fn test_shape_new() {
    let shape = Shape::new(1, 10, Vec2::new(0.0, 0.0), Vec2::new(10.0, 10.0));
    assert_eq!(shape.id, 1);
    assert_eq!(shape.layer_id, 10);
}

#[test]
fn test_shape_bounding_box() {
    let shape = Shape::new(1, 10, Vec2::new(5.0, 5.0), Vec2::new(10.0, 10.0));
    let (min, max) = shape.bounding_box();
    assert_eq!(min, Vec2::new(5.0, 5.0));
    assert_eq!(max, Vec2::new(15.0, 15.0));
}

#[test]
fn test_sort_by_z_order() {
    let mut shapes = vec![
        Shape::new(1, 1, Vec2::ZERO, Vec2::ONE),
        Shape::new(2, 1, Vec2::ZERO, Vec2::ONE),
    ];
    shapes[0].z_order = 10;
    shapes[1].z_order = 5;

    sort_by_z_order(&mut shapes);
    assert_eq!(shapes[0].id, 2);
    assert_eq!(shapes[1].id, 1);
}

#[test]
fn test_group_by_material() {
    let mut shapes = vec![
        Shape::new(1, 1, Vec2::ZERO, Vec2::ONE),
        Shape::new(2, 1, Vec2::ZERO, Vec2::ONE),
    ];
    shapes[0].material = MaterialType::SolidColor;
    shapes[1].material = MaterialType::Textured;

    let groups = group_by_material(&shapes);
    assert_eq!(groups[0].len(), 1);
    assert_eq!(groups[1].len(), 1);
}

#[test]
fn shape_defaults() {
    let shape = Shape::new(4, 2, Vec2::new(1.0, 2.0), Vec2::new(3.0, 4.0));
    assert_eq!(shape.color, Vec4::ONE);
    assert_eq!(shape.z_order, 0);
    assert_eq!(shape.material, MaterialType::SolidColor);
    assert_eq!(shape.position, Vec2::new(1.0, 2.0));
    assert_eq!(shape.size, Vec2::new(3.0, 4.0));
}

#[test]
fn try_new_refuses_non_positive_sizes() {
    assert!(Shape::try_new(1, 1, Vec2::ZERO, Vec2::new(0.0, 1.0)).is_none());
    assert!(Shape::try_new(1, 1, Vec2::ZERO, Vec2::new(1.0, -1.0)).is_none());
    assert!(Shape::try_new(1, 1, Vec2::ZERO, Vec2::new(f32::NAN, 1.0)).is_none());
    let shape = Shape::try_new(1, 1, Vec2::ZERO, Vec2::new(0.5, 2.0)).unwrap();
    assert_eq!(shape.size, Vec2::new(0.5, 2.0));
}

#[test]
fn color_must_lie_in_unit_range() {
    let mut shape = Shape::new(1, 1, Vec2::ZERO, Vec2::ONE);
    let red = Vec4::new(1.0, 0.0, 0.0, 0.5);
    assert!(shape.try_set_color(red));
    assert_eq!(shape.color, red);
    assert!(!shape.try_set_color(Vec4::new(1.5, 0.0, 0.0, 1.0)));
    assert!(!shape.try_set_color(Vec4::new(0.5, -0.1, 0.0, 1.0)));
    assert!(!shape.try_set_color(Vec4::new(0.5, 0.5, f32::NAN, 1.0)));
    assert_eq!(shape.color, red);
    shape.set_color(Vec4::ZERO);
    assert_eq!(shape.color, Vec4::ZERO);
}

#[test]
fn bounding_box_adds_size_to_position() {
    let shape = Shape::new(1, 1, Vec2::new(-2.0, 3.0), Vec2::new(0.5, 4.0));
    let (min, max) = shape.bounding_box();
    assert_eq!(min, Vec2::new(-2.0, 3.0));
    assert_eq!(max, Vec2::new(-1.5, 7.0));
}

#[test]
fn equal_z_order_shapes_sort_by_id() {
    let mut shapes: Vec<Shape> = [9u64, 4, 7, 1, 5]
        .iter()
        .map(|&id| Shape::new(id, 1, Vec2::ZERO, Vec2::ONE))
        .collect();
    shapes[0].z_order = 2;
    shapes[1].z_order = 2;
    shapes[2].z_order = -1;
    shapes[3].z_order = 2;
    shapes[4].z_order = -1;
    sort_by_z_order(&mut shapes);
    let order: Vec<(i32, u64)> = shapes.iter().map(|s| (s.z_order, s.id)).collect();
    assert_eq!(order, vec![(-1, 5), (-1, 7), (2, 1), (2, 4), (2, 9)]);
}

#[test]
fn sorting_an_empty_list_is_a_no_op() {
    let mut shapes: Vec<Shape> = Vec::new();
    sort_by_z_order(&mut shapes);
    assert!(shapes.is_empty());
}

#[test]
fn groups_keep_input_order_and_solid_comes_first() {
    let mut shapes: Vec<Shape> = (1..=5u64)
        .map(|id| Shape::new(id, 1, Vec2::ZERO, Vec2::ONE))
        .collect();
    shapes[1].material = MaterialType::Textured;
    shapes[3].material = MaterialType::Textured;
    let groups = group_by_material(&shapes);
    assert_eq!(groups.len(), 2);
    let solid: Vec<u64> = groups[0].iter().map(|s| s.id).collect();
    let textured: Vec<u64> = groups[1].iter().map(|s| s.id).collect();
    assert_eq!(solid, vec![1, 3, 5]);
    assert_eq!(textured, vec![2, 4]);
    let empty = group_by_material(&[]);
    assert!(empty[0].is_empty() && empty[1].is_empty());
}

#[test]
fn shapes_of_equal_rank_keep_their_order() {
    let mut shapes: Vec<Shape> = (0..4)
        .map(|i| Shape::new(1, 1, Vec2::new(i as f32, 0.0), Vec2::ONE))
        .collect();
    shapes[2].z_order = -3;
    sort_by_z_order(&mut shapes);
    let xs: Vec<f32> = shapes.iter().map(|s| s.position.x).collect();
    assert_eq!(xs, vec![2.0, 0.0, 1.0, 3.0]);
}

#[test]
fn component_checks_follow_float_comparisons() {
    assert!(simple_designer::linalg::is_positive_size(Vec2::new(f32::INFINITY, 1e-30)));
    assert!(!simple_designer::linalg::is_positive_size(Vec2::new(-0.0, 1.0)));
    assert!(!simple_designer::linalg::is_positive_size(Vec2::new(1.0, f32::NEG_INFINITY)));
    assert!(simple_designer::linalg::is_unit_color(Vec4::new(-0.0, 0.0, 1.0, 0.5)));
    assert!(!simple_designer::linalg::is_unit_color(Vec4::new(0.0, 0.0, 1.0, 1.000_001)));
    assert!(!simple_designer::linalg::is_unit_color(Vec4::new(0.0, 0.0, 0.0, f32::NAN)));
    assert!(!simple_designer::linalg::is_unit_color(Vec4::new(0.0, -1e-30, 0.0, 0.0)));
}
