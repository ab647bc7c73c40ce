//! Admission checks on encoded frames handed to the invariant service.
use vstd::prelude::*;

use crate::boundary::runtime::{check_frame, frame_error, length_check_fits};
use crate::boundary::state::{SimulationState, SimulationStateView};
use crate::text::{push_text, string_from};

verus! {

/// Path of the schema that the invariant service's messages follow.
pub const BOUNDARY_INVARIANTS_CONTRACT_PATH: &'static str = "contracts/boundary_invariants/contracts.proto";

/// A request to the invariant service: an encoded frame.
#[derive(Clone, Debug, PartialEq)]
pub struct InvariantRequest {
    pub simulation_state: Vec<u8>,
}

/// The invariant service's answer.
#[derive(Clone, Debug, PartialEq)]
pub struct InvariantResponse {
    pub accepted: bool,
    pub violations: Vec<String>,
}

/// What the decoder made of the payload: the frame, or the decoder's message.
pub open spec fn decoded_view(decoded: Result<SimulationState, String>) -> Result<SimulationStateView, Seq<char>> {
    match decoded {
        Ok(s) => Ok(s@),
        Err(e) => Err(e@),
    }
}

/// Why an encoded frame is refused, given what decoding it gave; `None` when it is admitted.
pub open spec fn payload_error(payload: Seq<u8>, decoded: Result<SimulationStateView, Seq<char>>) -> Option<Seq<char>> {
    if payload.len() == 0 {
        Some("simulation_state is empty"@)
    } else {
        match decoded {
            Err(e) => Some("simulation_state decode failed: "@ + e),
            Ok(s) => frame_error(s),
        }
    }
}

/// The length check of a decoded frame, when it is reached, fits in `usize`.
pub open spec fn payload_fits(payload: Seq<u8>, decoded: Result<SimulationStateView, Seq<char>>) -> bool {
    payload.len() != 0 ==> match decoded {
        Ok(s) => length_check_fits(s),
        Err(_) => true,
    }
}

/// Checks an encoded frame. `decoded` is what decoding `payload` gave (the frame,
/// or the decoder's message); the decoding itself happens where the wire format lives.
pub fn validate_simulation_state_payload(payload: &[u8], decoded: Result<SimulationState, String>) -> (r: Result<(), String>)
    requires
        payload_fits(payload@, decoded_view(decoded)),
    ensures
        match r {
            Ok(()) => payload_error(payload@, decoded_view(decoded)) is None,
            Err(m) => payload_error(payload@, decoded_view(decoded)) == Some(m@),
        },
{
    if payload.len() == 0 {
        return Err(string_from("simulation_state is empty"));
    }
    match decoded {
        Err(e) => {
            let mut m = string_from("simulation_state decode failed: ");
            push_text(&mut m, e.as_str());
            Err(m)
        },
        Ok(state) => check_frame(&state),
    }
}

/// The invariant service's answer to a request: accepted with no violations, or refused with
/// the one reason `validate_simulation_state_payload` gives.
pub fn evaluate_invariant_request(request: &InvariantRequest, decoded: Result<SimulationState, String>) -> (r: InvariantResponse)
    requires
        payload_fits(request.simulation_state@, decoded_view(decoded)),
    ensures
        match payload_error(request.simulation_state@, decoded_view(decoded)) {
            None => r.accepted && r.violations@.len() == 0,
            Some(m) => !r.accepted && r.violations@.len() == 1 && r.violations@[0]@ == m,
        },
{
    match validate_simulation_state_payload(request.simulation_state.as_slice(), decoded) {
        Ok(()) => InvariantResponse { accepted: true, violations: Vec::new() },
        Err(msg) => {
            let mut violations: Vec<String> = Vec::new();
            violations.push(msg);
            InvariantResponse { accepted: false, violations }
        },
    }
}

} // verus!
