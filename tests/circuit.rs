use temperature::circuit::{AnalysisType, HotSpot, StackElement, ThreeDICE};
use temperature::error::{Error, ErrorKind};
use temperature::fixture::find_fixture;
use temperature::shape::Shape;

#[test]
fn hotspot_shape() {
    let model = HotSpot::new(2, 4 * 2 + 12).unwrap();
    assert_eq!(model, HotSpot { units: 2, nodes: 20 });
    assert_eq!(model.shape(), Shape { units: 2, nodes: 20, outputs: 2 });
}

#[test]
fn hotspot_keeps_reported_counts() {
    assert_eq!(HotSpot::new(0, 20).unwrap(), HotSpot { units: 0, nodes: 20 });
    assert_eq!(HotSpot::new(3, 2).unwrap(), HotSpot { units: 3, nodes: 2 });
}

#[test]
fn hotspot_check_with_as_many_units_as_nodes() {
    assert!(HotSpot::new(3, 3).unwrap().check().is_ok());
    assert!(HotSpot::new(2, 20).unwrap().check().is_ok());
}

#[test]
fn hotspot_check_rejects_more_units_than_nodes() {
    let error = HotSpot::new(21, 20).unwrap().check().unwrap_err();
    assert_eq!(error.kind, ErrorKind::Dimensions);
}

#[test]
fn hotspot_check_rejects_no_units() {
    let error = HotSpot::new(0, 20).unwrap().check().unwrap_err();
    assert_eq!(error.kind, ErrorKind::Dimensions);
}

fn stack() -> Vec<StackElement> {
    vec![
        StackElement::HeatSink,
        StackElement::Layer,
        StackElement::Die { elements: 4 },
        StackElement::Layer,
    ]
}

#[test]
fn three_d_ice_circuit() {
    let circuit = ThreeDICE::new(&stack(), AnalysisType::Steady, 4, 10, 10).unwrap();
    assert_eq!(circuit, ThreeDICE { units: 4, nodes: 400 });
    assert_eq!(circuit.shape(), Shape { units: 4, nodes: 400, outputs: 4 });
}

#[test]
fn three_d_ice_rejects_channel() {
    let mut elements = stack();
    elements.push(StackElement::Channel);
    let error = ThreeDICE::new(&elements, AnalysisType::Transient, 4, 10, 10).unwrap_err();
    assert_eq!(error.kind, ErrorKind::Channel);
    assert_eq!(error.description(), "microchannels are not supported");
}

#[test]
fn three_d_ice_rejects_transient() {
    let error = ThreeDICE::new(&stack(), AnalysisType::Transient, 4, 10, 10).unwrap_err();
    assert_eq!(error.kind, ErrorKind::Analysis);
    assert_eq!(error.description(), "the analysis type should be set to steady");
    let error = ThreeDICE::check(&stack(), AnalysisType::Undefined).unwrap_err();
    assert_eq!(error.kind, ErrorKind::Analysis);
}

#[test]
fn three_d_ice_check_rejects_channel() {
    let elements = vec![StackElement::Layer, StackElement::Channel];
    let error = ThreeDICE::check(&elements, AnalysisType::Steady).unwrap_err();
    assert_eq!(error.kind, ErrorKind::Channel);
    assert_eq!(error.description(), "microchannels are not supported");
}

#[test]
fn three_d_ice_check_accepts_steady() {
    assert!(ThreeDICE::check(&stack(), AnalysisType::Steady).is_ok());
    assert!(ThreeDICE::check(&vec![], AnalysisType::Steady).is_ok());
}

#[test]
fn count_units_sums_dies() {
    let elements = vec![
        StackElement::Die { elements: 4 },
        StackElement::Layer,
        StackElement::Die { elements: 3 },
        StackElement::Undefined,
    ];
    assert_eq!(ThreeDICE::count_units(&elements), Some(7));
    assert_eq!(ThreeDICE::count_units(&vec![]), Some(0));
}

#[test]
fn count_units_overflow() {
    let elements = vec![
        StackElement::Die { elements: usize::MAX },
        StackElement::Die { elements: 1 },
    ];
    assert_eq!(ThreeDICE::count_units(&elements), None);
    let error = ThreeDICE::new(&elements, AnalysisType::Steady, 1, 1, 1).unwrap_err();
    assert_eq!(error.kind, ErrorKind::Overflow);
}

#[test]
fn count_nodes_product() {
    assert_eq!(ThreeDICE::count_nodes(4, 10, 10), Some(400));
    assert_eq!(ThreeDICE::count_nodes(usize::MAX, 2, 0), Some(0));
    assert_eq!(ThreeDICE::count_nodes(usize::MAX, 2, 1), None);
    assert_eq!(ThreeDICE::count_nodes(2, usize::MAX / 2, 3), None);
}

#[test]
fn find_fixture_path() {
    assert_eq!(find_fixture("002.flp"), "fixtures/002.flp");
    assert_eq!(find_fixture("hotspot.config"), "fixtures/hotspot.config");
}

#[test]
fn error_description() {
    let error = Error::new(ErrorKind::Backend, "failed to converge");
    assert_eq!(error.kind, ErrorKind::Backend);
    assert_eq!(error.description(), "failed to converge");
}
