//! Thermal circuits built by the HotSpot and 3D-ICE models.
//!
//! The models themselves read their input files; what they report is handed
//! to this module as plain values, which it checks and from which it fixes
//! the shape of the circuit.

use vstd::prelude::*;

use crate::error::{Error, ErrorKind};
use crate::shape::Shape;

verus! {

/// A thermal circuit constructed by HotSpot's block model.
///
/// Unit `i` dissipates its power into node `i`, and the temperature of node
/// `i` is reported as spot `i`; so the distribution and aggregation matrices
/// are the `nodes × units` and `units × nodes` selections of the first
/// `units` nodes.
#[derive(Clone, Copy, Debug, PartialEq, Eq, Structural)]
pub struct HotSpot {
    /// The number of processing elements.
    pub units: usize,
    /// The number of thermal nodes.
    pub nodes: usize,
}

impl HotSpot {
    /// The circuit of a HotSpot model that reports `units` processing
    /// elements and `nodes` thermal nodes, kept as reported.
    pub fn new(units: usize, nodes: usize) -> (r: Result<HotSpot, Error>)
        ensures
            r matches Ok(h) && h.units == units && h.nodes == nodes,
    {
        Ok(HotSpot { units, nodes })
    }

    /// Check that the units can be selected among the nodes: there is at
    /// least one unit and no more units than nodes.
    pub fn check(&self) -> (r: Result<(), Error>)
        ensures
            r is Ok <==> 0 < self.units <= self.nodes,
            r matches Err(e) ==> e.kind == ErrorKind::Dimensions,
    {
        if self.units == 0 || self.units > self.nodes {
            return Err(Error::new(ErrorKind::Dimensions, "the units do not fit in the thermal nodes"));
        }
        Ok(())
    }

    /// The shape of the circuit: each unit is also an output spot.
    pub fn shape(&self) -> (s: Shape)
        requires
            0 < self.units <= self.nodes,
        ensures
            s.valid(),
            s == (Shape { units: self.units, nodes: self.nodes, outputs: self.units }),
    {
        Shape { units: self.units, nodes: self.nodes, outputs: self.units }
    }
}

/// An element of a 3D-ICE stack.
#[derive(Clone, Copy, Debug, PartialEq, Eq, Structural)]
pub enum StackElement {
    /// A microchannel.
    Channel,
    /// A die whose floorplan has `elements` elements, each a processing
    /// element.
    Die { elements: usize },
    /// A heat sink.
    HeatSink,
    /// A layer.
    Layer,
    /// An element of undefined type.
    Undefined,
}

/// The type of analysis that a 3D-ICE stack description asks for.
#[derive(Clone, Copy, Debug, PartialEq, Eq, Structural)]
pub enum AnalysisType {
    /// The steady-state analysis.
    Steady,
    /// The transient analysis.
    Transient,
    /// An undefined analysis.
    Undefined,
}

/// The description of the error on a stack with a microchannel.
pub open spec fn channel_message() -> Seq<char> {
    "microchannels are not supported"@
}

/// The description of the error on a stack whose analysis is not steady.
pub open spec fn analysis_message() -> Seq<char> {
    "the analysis type should be set to steady"@
}

/// Whether the stack holds a microchannel.
pub open spec fn has_channel(elements: Seq<StackElement>) -> bool {
    exists|i: int| 0 <= i < elements.len() && elements[i] is Channel
}

/// The number of processing elements of a stack: the floorplan elements of
/// all its dies.
pub open spec fn units_of(elements: Seq<StackElement>) -> nat
    decreases elements.len(),
{
    if elements.len() == 0 {
        0
    } else {
        units_of(elements.drop_last()) + match elements.last() {
            StackElement::Die { elements } => elements as nat,
            _ => 0,
        }
    }
}

/// A thermal circuit constructed by 3D-ICE.
///
/// The aggregation matrix is the transpose of the distribution matrix, so
/// each unit is also an output spot.
#[derive(Clone, Copy, Debug, PartialEq, Eq, Structural)]
pub struct ThreeDICE {
    /// The number of processing elements.
    pub units: usize,
    /// The number of thermal nodes.
    pub nodes: usize,
}

impl ThreeDICE {
    /// Check that a stack can be simulated: it holds no microchannel, and its
    /// analysis type is steady.
    pub fn check(elements: &Vec<StackElement>, analysis: AnalysisType) -> (r: Result<(), Error>)
        ensures
            r is Ok <==> !has_channel(elements@) && analysis == AnalysisType::Steady,
            r matches Err(e) ==> (e.kind == ErrorKind::Channel <==> has_channel(elements@)),
            r matches Err(e) ==> (e.kind == ErrorKind::Channel || e.kind == ErrorKind::Analysis),
            r matches Err(e) ==> (e.kind == ErrorKind::Channel ==> e.message@ == channel_message()),
            r matches Err(e) ==> (e.kind == ErrorKind::Analysis ==> e.message@ == analysis_message()),
    {
        let mut i: usize = 0;
        while i < elements.len()
            invariant
                i <= elements@.len(),
                forall|j: int| 0 <= j < i ==> !(elements@[j] is Channel),
            decreases elements@.len() - i,
        {
            if matches!(elements[i], StackElement::Channel) {
                return Err(Error::new(ErrorKind::Channel, "microchannels are not supported"));
            }
            i = i + 1;
        }
        if analysis != AnalysisType::Steady {
            return Err(Error::new(ErrorKind::Analysis, "the analysis type should be set to steady"));
        }
        Ok(())
    }

    /// The number of processing elements of a stack, or `None` where it
    /// does not fit in a `usize`.
    pub fn count_units(elements: &Vec<StackElement>) -> (r: Option<usize>)
        ensures
            r matches Some(n) ==> n == units_of(elements@),
            r is None <==> units_of(elements@) > usize::MAX,
    {
        let mut count: usize = 0;
        let mut i: usize = 0;
        while i < elements.len()
            invariant
                i <= elements@.len(),
                count == units_of(elements@.subrange(0, i as int)),
            decreases elements@.len() - i,
        {
            proof {
                assert(elements@.subrange(0, i + 1).drop_last() =~= elements@.subrange(0, i as int));
            }
            match elements[i] {
                StackElement::Die { elements: n } => {
                    if count > usize::MAX - n {
                        proof {
                            lemma_units_of_prefix(elements@, i as int + 1);
                            assert(elements@.subrange(0, elements@.len() as int) =~= elements@);
                        }
                        return None;
                    }
                    count = count + n;
                },
                _ => {},
            }
            i = i + 1;
        }
        proof {
            assert(elements@.subrange(0, elements@.len() as int) =~= elements@);
        }
        Some(count)
    }

    /// The number of thermal nodes of a stack of `layers` layers of
    /// `rows × columns` cells, or `None` where it does not fit in a `usize`.
    pub fn count_nodes(layers: usize, rows: usize, columns: usize) -> (r: Option<usize>)
        ensures
            r matches Some(n) ==> n == layers * rows * columns,
            r is None <==> layers * rows * columns > usize::MAX,
    {
        let cells = match layers.checked_mul(rows) {
            Some(cells) => cells,
            None => {
                proof {
                    assert(columns == 0 || layers * rows * columns >= layers * rows) by (nonlinear_arith);
                }
                if columns == 0 {
                    proof {
                        assert(layers * rows * columns == 0) by (nonlinear_arith) requires columns == 0;
                    }
                    return Some(0);
                }
                return None;
            },
        };
        cells.checked_mul(columns)
    }

    /// The circuit of a 3D-ICE stack with the given elements and analysis
    /// type, made of `layers` layers of `rows × columns` cells.
    pub fn new(
        elements: &Vec<StackElement>,
        analysis: AnalysisType,
        layers: usize,
        rows: usize,
        columns: usize,
    ) -> (r: Result<ThreeDICE, Error>)
        ensures
            r is Ok <==> {
                &&& !has_channel(elements@)
                &&& analysis == AnalysisType::Steady
                &&& units_of(elements@) <= usize::MAX
                &&& layers * rows * columns <= usize::MAX
            },
            r matches Ok(c) ==> c.units == units_of(elements@) && c.nodes == layers * rows * columns,
            r matches Err(e) ==> (e.kind == ErrorKind::Channel <==> has_channel(elements@)),
            r matches Err(e) ==> (e.kind == ErrorKind::Analysis <==> !has_channel(elements@)
                && analysis != AnalysisType::Steady),
            r matches Err(e) ==> (e.kind == ErrorKind::Overflow <==> !has_channel(elements@)
                && analysis == AnalysisType::Steady),
            r matches Err(e) ==> (e.kind == ErrorKind::Channel ==> e.message@ == channel_message()),
            r matches Err(e) ==> (e.kind == ErrorKind::Analysis ==> e.message@ == analysis_message()),
    {
        match ThreeDICE::check(elements, analysis) {
            Ok(()) => {},
            Err(e) => return Err(e),
        }
        let units = match ThreeDICE::count_units(elements) {
            Some(units) => units,
            None => return Err(Error::new(ErrorKind::Overflow, "the number of units is too large")),
        };
        let nodes = match ThreeDICE::count_nodes(layers, rows, columns) {
            Some(nodes) => nodes,
            None => return Err(Error::new(ErrorKind::Overflow, "the number of nodes is too large")),
        };
        Ok(ThreeDICE { units, nodes })
    }

    /// The shape of the circuit: each unit is also an output spot.
    pub fn shape(&self) -> (s: Shape)
        ensures
            s == (Shape { units: self.units, nodes: self.nodes, outputs: self.units }),
    {
        Shape { units: self.units, nodes: self.nodes, outputs: self.units }
    }
}

/// The units of a prefix never exceed those of the whole stack.
proof fn lemma_units_of_prefix(elements: Seq<StackElement>, i: int)
    requires
        0 <= i <= elements.len(),
    ensures
        units_of(elements.subrange(0, i)) <= units_of(elements),
    decreases elements.len() - i,
{
    if i < elements.len() {
        lemma_units_of_prefix(elements, i + 1);
        assert(elements.subrange(0, i + 1).drop_last() =~= elements.subrange(0, i));
    } else {
        assert(elements.subrange(0, i) =~= elements);
    }
}

} // verus!
