//! The dimensions of a thermal circuit and the validation of trace chunks.

use vstd::prelude::*;

use crate::error::{Error, ErrorKind};

verus! {

/// The dimensions of a thermal circuit.
///
/// The circuit has `units` processing elements, whose power is distributed onto
/// `nodes` thermal nodes, whose temperature is aggregated into `outputs` spots.
#[derive(Clone, Copy, Debug, PartialEq, Eq, Structural)]
pub struct Shape {
    /// The number of processing elements.
    pub units: usize,
    /// The number of thermal nodes.
    pub nodes: usize,
    /// The number of spots whose temperature is reported.
    pub outputs: usize,
}

/// Whether the dimensions of the four matrices of a circuit agree: the
/// capacitance is `nodes` long, the conductance is `nodes × nodes`, the
/// distribution is `nodes × units` and the aggregation is `outputs × nodes`,
/// with none of the three counts zero.
pub open spec fn consistent(
    capacitance: usize,
    conductance: (usize, usize),
    distribution: (usize, usize),
    aggregation: (usize, usize),
) -> bool {
    &&& distribution.0 > 0
    &&& distribution.1 > 0
    &&& aggregation.0 > 0
    &&& capacitance == distribution.0
    &&& conductance.0 == distribution.0
    &&& conductance.1 == distribution.0
    &&& aggregation.1 == distribution.0
}

/// Whether a chunk of `power` power samples and `output` output samples
/// covers exactly `steps` time steps of a circuit of shape `shape`.
pub open spec fn covers(shape: Shape, power: int, output: int, steps: int) -> bool {
    power == steps * shape.units && output == steps * shape.outputs
}

impl Shape {
    /// Whether no dimension is zero.
    pub open spec fn valid(&self) -> bool {
        self.units > 0 && self.nodes > 0 && self.outputs > 0
    }

    /// The shape of a circuit given the dimensions of its capacitance vector
    /// and of its conductance, distribution and aggregation matrices, each as
    /// `(rows, columns)`.
    pub fn new(
        capacitance: usize,
        conductance: (usize, usize),
        distribution: (usize, usize),
        aggregation: (usize, usize),
    ) -> (r: Result<Shape, Error>)
        ensures
            r is Ok <==> consistent(capacitance, conductance, distribution, aggregation),
            r matches Ok(shape) ==> shape.valid() && shape == (Shape {
                units: distribution.1,
                nodes: distribution.0,
                outputs: aggregation.0,
            }),
            r matches Err(e) ==> e.kind == ErrorKind::Dimensions,
    {
        let (nodes, units) = distribution;
        let outputs = aggregation.0;
        if nodes == 0 || units == 0 || outputs == 0 {
            return Err(Error::new(ErrorKind::Dimensions, "the circuit has an empty dimension"));
        }
        if capacitance != nodes || conductance.0 != nodes || conductance.1 != nodes {
            return Err(Error::new(ErrorKind::Dimensions, "the circuit matrices disagree on the number of nodes"));
        }
        if aggregation.1 != nodes {
            return Err(Error::new(ErrorKind::Dimensions, "the aggregation matrix does not match the nodes"));
        }
        Ok(Shape { units, nodes, outputs })
    }

    /// The number of time steps that a chunk of `power` power samples and
    /// `output` output samples covers, or `None` where `power` is not a
    /// multiple of `units`, `output` is not a multiple of `outputs`, or the
    /// two imply different numbers of steps.
    pub fn steps(&self, power: usize, output: usize) -> (r: Option<usize>)
        requires
            self.valid(),
        ensures
            r matches Some(steps) ==> covers(*self, power as int, output as int, steps as int),
            r is None ==> forall|steps: int| !covers(*self, power as int, output as int, steps),
    {
        let steps = power / self.units;
        if power % self.units != 0 || output % self.outputs != 0 || output / self.outputs != steps {
            proof {
                assert forall|n: int| !covers(*self, power as int, output as int, n) by {
                    if covers(*self, power as int, output as int, n) {
                        lemma_exact_quotient(power as int, self.units as int, n);
                        lemma_exact_quotient(output as int, self.outputs as int, n);
                    }
                }
            }
            return None;
        }
        proof {
            vstd::arithmetic::div_mod::lemma_fundamental_div_mod(power as int, self.units as int);
            vstd::arithmetic::div_mod::lemma_fundamental_div_mod(output as int, self.outputs as int);
            vstd::arithmetic::mul::lemma_mul_is_commutative(steps as int, self.units as int);
            vstd::arithmetic::mul::lemma_mul_is_commutative(steps as int, self.outputs as int);
        }
        Some(steps)
    }
}

/// Chunks add up: where one chunk covers `first` time steps and the next
/// covers `second`, the two together cover `first + second`. A trace split
/// into chunks is thus stepped through as many time steps as in one call.
pub proof fn lemma_chunks_add_up(
    shape: Shape,
    power: (int, int),
    output: (int, int),
    first: int,
    second: int,
)
    requires
        covers(shape, power.0, output.0, first),
        covers(shape, power.1, output.1, second),
    ensures
        covers(shape, power.0 + power.1, output.0 + output.1, first + second),
{
    vstd::arithmetic::mul::lemma_mul_is_distributive_add_other_way(shape.units as int, first, second);
    vstd::arithmetic::mul::lemma_mul_is_distributive_add_other_way(shape.outputs as int, first, second);
}

/// A number that is `n` times a positive `d` leaves no remainder and has `n`
/// as its quotient.
proof fn lemma_exact_quotient(x: int, d: int, n: int)
    requires
        d > 0,
        x == n * d,
    ensures
        x % d == 0,
        x / d == n,
{
    vstd::arithmetic::div_mod::lemma_div_multiples_vanish(n, d);
    vstd::arithmetic::div_mod::lemma_mod_multiples_basic(n, d);
    vstd::arithmetic::mul::lemma_mul_is_commutative(n, d);
}

} // verus!
