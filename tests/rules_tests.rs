use simple_designer::canvas::validate_canvas_size;
use simple_designer::opacity::Opacity;
use simple_designer::spatial::{
    check_object_count, push_bounded, IndexError, MAX_OBJECTS, MAX_QUERY_RESULTS,
};

#[test]
fn canvas_sizes() {
    assert!(validate_canvas_size(800, 600).is_ok());
    assert!(validate_canvas_size(4096, 4096).is_ok());
    assert_eq!(validate_canvas_size(0, 600), Err("Invalid dimensions".to_string()));
    assert_eq!(validate_canvas_size(800, 0), Err("Invalid dimensions".to_string()));
    assert_eq!(validate_canvas_size(4097, 600), Err("Dimensions too large".to_string()));
    assert_eq!(validate_canvas_size(800, 5000), Err("Dimensions too large".to_string()));
}

#[test]
fn object_count_limit() {
    assert!(check_object_count(0).is_ok());
    assert!(check_object_count(100_000).is_ok());
    assert_eq!(
        check_object_count(100_001),
        Err(IndexError::TooManyObjects { count: 100_001, max: MAX_OBJECTS })
    );
}

#[test]
fn query_results_stop_at_the_ceiling() {
    let mut results: Vec<u32> = Vec::new();
    assert!(push_bounded(&mut results, 7));
    assert_eq!(results, vec![7]);
    for id in 1..(MAX_QUERY_RESULTS as u32 - 1) {
        assert!(push_bounded(&mut results, id));
    }
    assert!(!push_bounded(&mut results, 12));
    assert_eq!(results.len(), 10_000);
    assert!(!push_bounded(&mut results, 13));
    assert_eq!(results.len(), 10_000);
    assert_eq!(*results.last().unwrap(), 12);
}

#[test]
fn opacity_bits() {
    assert_eq!(Opacity::opaque().to_bits(), 1.0f32.to_bits());
    assert!(Opacity::from_bits(0.3f32.to_bits()).unwrap().is_positive());
    assert!(!Opacity::from_bits(0.0f32.to_bits()).unwrap().is_positive());
    assert_eq!(Opacity::from_bits((-0.0f32).to_bits()).unwrap().to_bits(), 0);
    assert!(Opacity::from_bits(2.0f32.to_bits()).is_none());
    assert!(Opacity::from_bits(f32::NAN.to_bits()).is_none());
    assert_eq!(Opacity::clamped(7.0f32.to_bits()).to_bits(), 1.0f32.to_bits());
    assert_eq!(Opacity::clamped(f32::NEG_INFINITY.to_bits()).to_bits(), 0);
    assert_eq!(Opacity::clamped(0.75f32.to_bits()).to_bits(), 0.75f32.to_bits());
}
