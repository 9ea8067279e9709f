use temperature::error::ErrorKind;
use temperature::shape::Shape;

fn fixture_shape() -> Shape {
    Shape::new(20, (20, 20), (20, 2), (2, 20)).unwrap()
}

#[test]
fn shape_from_consistent_dimensions() {
    let shape = fixture_shape();
    assert_eq!(shape, Shape { units: 2, nodes: 20, outputs: 2 });
}

#[test]
fn shape_with_more_outputs_than_units() {
    let shape = Shape::new(5, (5, 5), (5, 1), (3, 5)).unwrap();
    assert_eq!(shape, Shape { units: 1, nodes: 5, outputs: 3 });
}

#[test]
fn shape_rejects_mismatched_capacitance() {
    let error = Shape::new(19, (20, 20), (20, 2), (2, 20)).unwrap_err();
    assert_eq!(error.kind, ErrorKind::Dimensions);
}

#[test]
fn shape_rejects_mismatched_conductance() {
    let error = Shape::new(20, (20, 19), (20, 2), (2, 20)).unwrap_err();
    assert_eq!(error.kind, ErrorKind::Dimensions);
}

#[test]
fn shape_rejects_mismatched_aggregation() {
    let error = Shape::new(20, (20, 20), (20, 2), (2, 21)).unwrap_err();
    assert_eq!(error.kind, ErrorKind::Dimensions);
}

#[test]
fn shape_rejects_empty_dimension() {
    assert!(Shape::new(20, (20, 20), (20, 0), (2, 20)).is_err());
    assert!(Shape::new(20, (20, 20), (20, 2), (0, 20)).is_err());
    assert!(Shape::new(0, (0, 0), (0, 2), (2, 0)).is_err());
}

#[test]
fn steps_of_matching_chunk() {
    let shape = fixture_shape();
    assert_eq!(shape.steps(440 * 2, 440 * 2), Some(440));
    assert_eq!(shape.steps(2, 2), Some(1));
}

#[test]
fn steps_of_empty_chunk() {
    assert_eq!(fixture_shape().steps(0, 0), Some(0));
}

#[test]
fn steps_rejects_partial_power() {
    assert_eq!(fixture_shape().steps(881, 880), None);
}

#[test]
fn steps_rejects_partial_output() {
    let shape = Shape::new(5, (5, 5), (5, 1), (3, 5)).unwrap();
    assert_eq!(shape.steps(4, 11), None);
    assert_eq!(shape.steps(4, 12), Some(4));
}

#[test]
fn steps_rejects_different_counts() {
    assert_eq!(fixture_shape().steps(880, 878), None);
    assert_eq!(fixture_shape().steps(0, 2), None);
}

#[test]
fn chunks_add_up() {
    let shape = fixture_shape();
    let whole = shape.steps(880, 880).unwrap();
    let halves = shape.steps(440, 440).unwrap() + shape.steps(440, 440).unwrap();
    let mut singles = 0;
    for _ in 0..440 {
        singles += shape.steps(2, 2).unwrap();
    }
    assert_eq!(whole, 440);
    assert_eq!(halves, whole);
    assert_eq!(singles, whole);
}
