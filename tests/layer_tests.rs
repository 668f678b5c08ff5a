use glam::{Mat3, Vec2};
use simple_designer::layer::Layer;
use simple_designer::layer_tree::{LayerTree, MAX_LAYERS};

fn opacity_of(layer: &Layer) -> f32 {
    f32::from_bits(layer.opacity.to_bits())
}

#[test]
fn test_layer_new() {
    let layer = Layer::new(1, "Test Layer".to_string());
    assert_eq!(layer.id, 1);
    assert_eq!(layer.name, "Test Layer");
    assert!(layer.visible);
    assert_eq!(opacity_of(&layer), 1.0);
}

#[test]
fn test_layer_visibility() {
    let mut layer = Layer::new(1, "Test".to_string());
    layer.set_visible(false);
    assert!(!layer.visible);
    assert!(!layer.is_renderable());
}

#[test]
fn test_layer_opacity() {
    let mut layer = Layer::new(1, "Test".to_string());
    layer.set_opacity(0.5f32.to_bits());
    assert_eq!(opacity_of(&layer), 0.5);

    layer.set_opacity(0.0f32.to_bits());
    assert!(!layer.is_renderable());
}

#[test]
fn test_layer_z_order() {
    let mut layer = Layer::new(1, "Test".to_string());
    layer.set_z_order(10);
    assert_eq!(layer.z_order, 10);
}

#[test]
fn test_layer_set_transform() {
    let mut layer = Layer::new(1, "Test".to_string());
    let transform = Mat3::from_scale_angle_translation(
        glam::Vec2::new(2.0, 2.0),
        0.0,
        glam::Vec2::new(10.0, 20.0),
    );
    layer.set_transform(transform);
    assert_eq!(layer.transform, transform);
}

#[test]
fn layer_new_has_identity_transform_and_z_order_zero() {
    let layer = Layer::new(7, "L".to_string());
    assert_eq!(layer.transform, Mat3::IDENTITY);
    assert_eq!(layer.z_order, 0);
    assert!(layer.is_renderable());
}

#[test]
fn layer_opacity_is_clamped() {
    let mut layer = Layer::new(1, "Test".to_string());
    layer.set_opacity(1.5f32.to_bits());
    assert_eq!(opacity_of(&layer), 1.0);
    layer.set_opacity((-0.5f32).to_bits());
    assert_eq!(opacity_of(&layer), 0.0);
    assert!(!layer.is_renderable());
    layer.set_opacity(f32::INFINITY.to_bits());
    assert_eq!(opacity_of(&layer), 1.0);
    layer.set_opacity(f32::MIN_POSITIVE.to_bits());
    assert!(layer.is_renderable());
}

#[test]
fn test_layer_tree_new() {
    let tree = LayerTree::new();
    assert_eq!(tree.len(), 0);
    assert!(tree.is_empty());
}

#[test]
fn test_add_layer() {
    let mut tree = LayerTree::new();
    let id = tree.add_layer("Layer 1".to_string()).unwrap();
    assert_eq!(tree.len(), 1);

    let layer = tree.get_layer(id).unwrap();
    assert_eq!(layer.name, "Layer 1");
}

#[test]
fn test_remove_layer() {
    let mut tree = LayerTree::new();
    let id = tree.add_layer("Layer 1".to_string()).unwrap();
    assert_eq!(tree.len(), 1);

    let removed = tree.remove_layer(id);
    assert!(removed);
    assert_eq!(tree.len(), 0);
}

#[test]
fn test_sorted_layers() {
    let mut tree = LayerTree::new();
    let id1 = tree.add_layer("Layer 1".to_string()).unwrap();
    let id2 = tree.add_layer("Layer 2".to_string()).unwrap();

    tree.get_layer_mut(id1).unwrap().set_z_order(10);
    tree.get_layer_mut(id2).unwrap().set_z_order(5);

    let sorted = tree.get_sorted_layers();
    assert_eq!(sorted[0].id, id2);
    assert_eq!(sorted[1].id, id1);
}

#[test]
fn test_max_layers() {
    let mut tree = LayerTree::new();
    for i in 0..MAX_LAYERS {
        tree.add_layer(format!("Layer {}", i)).unwrap();
    }

    let result = tree.add_layer("Overflow".to_string());
    assert!(result.is_err());
}

#[test]
fn full_tree_keeps_exactly_max_layers() {
    let mut tree = LayerTree::new();
    for i in 0..MAX_LAYERS {
        tree.add_layer(format!("Layer {}", i)).unwrap();
    }
    assert!(tree.add_layer("Overflow".to_string()).is_err());
    assert_eq!(tree.len(), 1000);
    assert_eq!(tree.get_sorted_layers().len(), 1000);
}

#[test]
fn ids_start_at_one_and_are_not_reused() {
    let mut tree = LayerTree::new();
    let a = tree.add_layer("A".to_string()).unwrap();
    let b = tree.add_layer("B".to_string()).unwrap();
    assert_eq!((a, b), (1, 2));
    assert!(tree.remove_layer(b));
    assert!(!tree.remove_layer(b));
    let c = tree.add_layer("C".to_string()).unwrap();
    assert_eq!(c, 3);
    tree.clear();
    assert!(tree.is_empty());
    let d = tree.add_layer("D".to_string()).unwrap();
    assert_eq!(d, 4);
    assert!(tree.get_layer(a).is_none());
}

#[test]
fn equal_z_order_layers_sort_by_id() {
    let mut tree = LayerTree::new();
    let ids: Vec<u64> = (0..4).map(|i| tree.add_layer(format!("L{}", i)).unwrap()).collect();
    tree.get_layer_mut(ids[0]).unwrap().set_z_order(3);
    tree.get_layer_mut(ids[1]).unwrap().set_z_order(-2);
    tree.get_layer_mut(ids[2]).unwrap().set_z_order(3);
    tree.get_layer_mut(ids[3]).unwrap().set_z_order(-2);
    let order: Vec<u64> = tree.get_sorted_layers().iter().map(|l| l.id).collect();
    assert_eq!(order, vec![ids[1], ids[3], ids[0], ids[2]]);
}

#[test]
fn renderable_layers_skip_hidden_and_transparent() {
    let mut tree = LayerTree::new();
    let a = tree.add_layer("A".to_string()).unwrap();
    let b = tree.add_layer("B".to_string()).unwrap();
    let c = tree.add_layer("C".to_string()).unwrap();
    tree.get_layer_mut(a).unwrap().set_visible(false);
    tree.get_layer_mut(b).unwrap().set_opacity(0.0f32.to_bits());
    tree.get_layer_mut(c).unwrap().set_z_order(-1);
    let d = tree.add_layer("D".to_string()).unwrap();
    let drawn: Vec<u64> = tree.get_renderable().iter().map(|l| l.id).collect();
    assert_eq!(drawn, vec![c, d]);
}

#[test]
fn unknown_layer_ids_give_nothing() {
    let mut tree = LayerTree::new();
    assert!(tree.get_layer(5).is_none());
    assert!(tree.get_layer_mut(5).is_none());
    assert!(!tree.remove_layer(5));
    let shift = Vec2::new(1.0, 0.0);
    let id = tree.add_layer("A".to_string()).unwrap();
    tree.get_layer_mut(id)
        .unwrap()
        .set_transform(Mat3::from_translation(shift));
    assert_eq!(tree.get_layer(id).unwrap().transform, Mat3::from_translation(shift));
}

#[test]
fn invalid_layer_names_are_refused() {
    let mut tree = LayerTree::new();
    assert_eq!(tree.add_layer(String::new()), Err("Invalid layer name".to_string()));
    assert!(tree.add_layer("x".repeat(256)).is_ok());
    assert_eq!(tree.add_layer("x".repeat(257)), Err("Invalid layer name".to_string()));
    assert!(tree.add_layer("é".repeat(256)).is_ok());
    assert_eq!(tree.len(), 2);
    let id = tree.add_layer("next".to_string()).unwrap();
    assert_eq!(id, 3);
}

#[test]
fn out_of_range_z_order_is_refused() {
    let mut layer = Layer::new(1, "Test".to_string());
    assert!(layer.try_set_z_order(-10_000));
    assert_eq!(layer.z_order, -10_000);
    assert!(!layer.try_set_z_order(10_001));
    assert!(!layer.try_set_z_order(-10_001));
    assert_eq!(layer.z_order, -10_000);
    assert!(layer.try_set_z_order(10_000));
    assert_eq!(layer.z_order, 10_000);
}

#[test]
fn added_layer_has_identity_transform() {
    let mut tree = LayerTree::default();
    let id = tree.add_layer("A".to_string()).unwrap();
    let layer = tree.get_layer(id).unwrap();
    assert_eq!(layer.transform, Mat3::IDENTITY);
    assert_eq!(f32::from_bits(layer.opacity.to_bits()), 1.0);
    assert_eq!(Layer::default().transform, Mat3::IDENTITY);
    assert_eq!(Layer::default().name, "Layer");
}

#[test]
fn nan_opacity_is_refused() {
    let mut layer = Layer::new(1, "Test".to_string());
    layer.set_opacity(0.25f32.to_bits());
    assert!(!layer.try_set_opacity(f32::NAN.to_bits()));
    assert!(!layer.try_set_opacity((-f32::NAN).to_bits()));
    assert_eq!(opacity_of(&layer), 0.25);
    assert!(layer.try_set_opacity(3.0f32.to_bits()));
    assert_eq!(opacity_of(&layer), 1.0);
    assert!(layer.try_set_opacity(0.5f32.to_bits()));
    assert_eq!(opacity_of(&layer), 0.5);
}
