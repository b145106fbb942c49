//! The Rust gates: each inspects pre-loaded sources and reports
//! findings.

use vstd::prelude::*;

use crate::gate::GateId;

pub mod bug_assumption;
pub mod debug_remove;
pub mod forbidden_call;
pub mod test_density;
pub mod unsafe_proof;

verus! {

/// The gates a Rust run executes, in the doctrine's declaration order,
/// so summary lines stay in a stable order across runs.
pub fn all_gates() -> (r: Vec<GateId>)
    ensures
        r@ == seq![
            GateId::BugAssumption,
            GateId::ForbiddenCall,
            GateId::DebugRemove,
            GateId::UnsafeProof,
            GateId::TestDensityAggregate,
        ],
{
    let mut v: Vec<GateId> = Vec::new();
    v.push(GateId::BugAssumption);
    v.push(GateId::ForbiddenCall);
    v.push(GateId::DebugRemove);
    v.push(GateId::UnsafeProof);
    v.push(GateId::TestDensityAggregate);
    v
}

} // verus!
