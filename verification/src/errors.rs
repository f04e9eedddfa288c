//! Error and status taxonomy of the simulation engine.

use vstd::prelude::*;

verus! {

/// Why a run could not start or had to stop.
#[derive(Clone, Copy, Debug, PartialEq, Eq, Structural)]
pub enum SimError {
    /// A configuration field that the chosen strategy needs is missing.
    ConfigurationError,
    /// A leg of the route plan has coincident endpoints.
    InvalidRouteGeometry,
    /// Advancing a timestamp left the representable range.
    ArithmeticOverflow,
}

/// How a run ended.
#[derive(Clone, Copy, Debug, PartialEq, Eq, Structural)]
pub enum SimStatus {
    /// The vessel reached the final waypoint.
    Completed,
    /// The iteration budget ran out before arrival.
    IterationsExhausted,
}

/// What one sub-step of an externally driven run produced.
#[derive(Clone, Copy, Debug, PartialEq, Eq, Structural)]
pub enum StepOutcome {
    /// The run goes on; feed the next weather sample.
    Running,
    /// The vessel reached the final waypoint.
    Completed,
    /// The iteration budget ran out before arrival.
    IterationsExhausted,
}

} // verus!
