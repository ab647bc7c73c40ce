//! Simulation identities, settings and the fixed initial frame.
use std::path::PathBuf;
use vstd::prelude::*;

use crate::boundary::state::{FieldTensor, SimulationState, SimulationStateView};
use crate::text::string_from;

verus! {

/// Where a simulation is in its life.
#[derive(Debug, Clone, PartialEq, Eq)]
pub enum SimulationStatus {
    Initializing,
    Running,
    Paused,
    Completed,
    Failed(String),
}

/// Settings of one simulation.
#[derive(Debug, Clone)]
pub struct SimulationConfig {
    pub solver_kind: String,
    pub max_steps: Option<u64>,
    pub output_path: Option<PathBuf>,
}

impl Default for SimulationConfig {
    fn default() -> (r: Self)
        ensures
            r.solver_kind@ == "heat_reference"@,
            r.max_steps is None,
            r.output_path is None,
    {
        SimulationConfig { solver_kind: string_from("heat_reference"), max_steps: None, output_path: None }
    }
}

pub open spec fn is_lower_hex_digit(c: char) -> bool {
    ('0' <= c && c <= '9') || ('a' <= c && c <= 'f')
}

/// The hyphenated lower-case text of a random (version 4, RFC 4122 variant) UUID.
pub open spec fn is_uuid_v4_text(s: Seq<char>) -> bool {
    &&& s.len() == 36
    &&& forall|i: int|
        0 <= i < 36 ==> if i == 8 || i == 13 || i == 18 || i == 23 {
            #[trigger] s[i] == '-'
        } else {
            is_lower_hex_digit(s[i])
        }
    &&& s[14] == '4'
    &&& (s[19] == '8' || s[19] == '9' || s[19] == 'a' || s[19] == 'b')
}

/// A fresh random identifier: `uuid::Uuid::new_v4()` rendered by its `Display`
/// (hyphenated, lower case). The text has the shape of a version 4 UUID; which
/// one comes out is left to the random source.
#[verifier::external_body]
fn random_uuid_text() -> (s: String)
    ensures
        is_uuid_v4_text(s@),
{
    uuid::Uuid::new_v4().to_string()
}

/// The identifier of a simulation.
#[derive(Debug, Clone, PartialEq, Eq, Hash)]
pub struct SimulationId(String);

impl View for SimulationId {
    type V = Seq<char>;

    closed spec fn view(&self) -> Seq<char> {
        self.0@
    }
}

impl SimulationId {
    /// A fresh random identifier.
    pub fn new() -> (r: Self)
        ensures
            is_uuid_v4_text(r@),
    {
        SimulationId(random_uuid_text())
    }

    pub fn from_string(s: String) -> (r: Self)
        ensures
            r@ == s@,
    {
        SimulationId(s)
    }

    pub fn as_str(&self) -> (r: &str)
        ensures
            r@ == self@,
    {
        self.0.as_str()
    }
}

/// Runs batches with at most `max_concurrent` simulations at a time.
pub struct BatchExecutor {
    max_concurrent: usize,
}

impl BatchExecutor {
    pub closed spec fn limit(&self) -> usize {
        self.max_concurrent
    }

    pub fn new(max_concurrent: usize) -> (r: Self)
        ensures
            r.limit() == max_concurrent,
    {
        BatchExecutor { max_concurrent }
    }

    pub fn max_concurrent(&self) -> (r: usize)
        ensures
            r == self.limit(),
    {
        self.max_concurrent
    }
}

/// Bit pattern of the binary32 value 1.0.
pub const ONE_BINARY32: u32 = 0x3f80_0000;

/// The starting frame of a heat simulation: a 3 by 3 scalar temperature field
/// of zeros with unit spacing, at step zero and time zero.
pub open spec fn initial_state_view(simulation_id: Seq<char>) -> SimulationStateView {
    SimulationStateView {
        simulation_id,
        solver_kind: "heat_reference"@,
        step_index: 0,
        simulation_time: 0,
        primary_field: Some(crate::boundary::state::FieldTensorView {
            field_name: "temperature"@,
            field_kind: "scalar"@,
            width: 3,
            height: 3,
            channels: 1,
            cell_spacing: ONE_BINARY32,
            values: Seq::new(9, |_i: int| 0u32),
        }),
    }
}

/// The starting frame of a heat simulation named `simulation_id`.
pub fn create_initial_state_with_id(simulation_id: &str) -> (s: SimulationState)
    ensures
        s@ == initial_state_view(simulation_id@),
{
    let mut values: Vec<u32> = Vec::new();
    let mut i: usize = 0;
    while i < 9
        invariant
            i <= 9,
            values@ == Seq::new(i as nat, |_i: int| 0u32),
        decreases 9 - i,
    {
        values.push(0);
        i = i + 1;
        assert(values@ =~= Seq::new(i as nat, |_i: int| 0u32));
    }
    SimulationState {
        simulation_id: string_from(simulation_id),
        solver_kind: string_from("heat_reference"),
        step_index: 0,
        simulation_time: 0,
        primary_field: Some(FieldTensor {
            field_name: string_from("temperature"),
            field_kind: string_from("scalar"),
            width: 3,
            height: 3,
            channels: 1,
            cell_spacing: ONE_BINARY32,
            values,
        }),
    }
}

} // verus!
