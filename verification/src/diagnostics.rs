use vstd::prelude::*;

verus! {

/// Registration marker for the diagnostics subsystem. The frame-timing
/// reporter itself (counting frames and averaging their duration in
/// floating point) observes the pipeline from outside the verified core
/// and lives with the rest of the process wiring.
pub struct DiagnosticPlugin;

} // verus!
