//! The simulation frame that crosses the boundary.
//!
//! Binary32 and binary64 quantities are held by their IEEE-754 bit patterns
//! (see `crate::ieee754`).
use vstd::prelude::*;

verus! {

/// A sampled field on a regular grid.
#[derive(Clone, Debug)]
pub struct FieldTensor {
    pub field_name: String,
    pub field_kind: String,
    pub width: u32,
    pub height: u32,
    pub channels: u32,
    /// Bit pattern of the binary32 grid spacing.
    pub cell_spacing: u32,
    /// Bit patterns of the binary32 samples, channel-major then row-major.
    pub values: Vec<u32>,
}

/// The mathematical content of a `FieldTensor`.
pub struct FieldTensorView {
    pub field_name: Seq<char>,
    pub field_kind: Seq<char>,
    pub width: u32,
    pub height: u32,
    pub channels: u32,
    pub cell_spacing: u32,
    pub values: Seq<u32>,
}

impl View for FieldTensor {
    type V = FieldTensorView;

    open spec fn view(&self) -> FieldTensorView {
        FieldTensorView {
            field_name: self.field_name@,
            field_kind: self.field_kind@,
            width: self.width,
            height: self.height,
            channels: self.channels,
            cell_spacing: self.cell_spacing,
            values: self.values@,
        }
    }
}

/// One frame of a simulation.
#[derive(Clone, Debug)]
pub struct SimulationState {
    pub simulation_id: String,
    pub solver_kind: String,
    pub step_index: u64,
    /// Bit pattern of the binary64 simulation time.
    pub simulation_time: u64,
    pub primary_field: Option<FieldTensor>,
}

/// The mathematical content of a `SimulationState`.
pub struct SimulationStateView {
    pub simulation_id: Seq<char>,
    pub solver_kind: Seq<char>,
    pub step_index: u64,
    pub simulation_time: u64,
    pub primary_field: Option<FieldTensorView>,
}

impl View for SimulationState {
    type V = SimulationStateView;

    open spec fn view(&self) -> SimulationStateView {
        SimulationStateView {
            simulation_id: self.simulation_id@,
            solver_kind: self.solver_kind@,
            step_index: self.step_index,
            simulation_time: self.simulation_time,
            primary_field: match self.primary_field {
                Some(f) => Some(f@),
                None => None,
            },
        }
    }
}

impl FieldTensor {
    /// A copy with the same content.
    pub fn duplicate(&self) -> (r: FieldTensor)
        ensures
            r@ == self@,
    {
        let values = copy_u32s(&self.values);
        FieldTensor {
            field_name: self.field_name.clone(),
            field_kind: self.field_kind.clone(),
            width: self.width,
            height: self.height,
            channels: self.channels,
            cell_spacing: self.cell_spacing,
            values,
        }
    }
}

impl SimulationState {
    /// A copy with the same content.
    pub fn duplicate(&self) -> (r: SimulationState)
        ensures
            r@ == self@,
    {
        let primary_field = match &self.primary_field {
            Some(f) => Some(f.duplicate()),
            None => None,
        };
        SimulationState {
            simulation_id: self.simulation_id.clone(),
            solver_kind: self.solver_kind.clone(),
            step_index: self.step_index,
            simulation_time: self.simulation_time,
            primary_field,
        }
    }
}

/// A copy of a vector of bit patterns.
pub fn copy_u32s(v: &Vec<u32>) -> (r: Vec<u32>)
    ensures
        r@ == v@,
{
    let mut r: Vec<u32> = Vec::new();
    let mut i: usize = 0;
    while i < v.len()
        invariant
            i <= v.len(),
            r@ == v@.take(i as int),
        decreases v.len() - i,
    {
        r.push(v[i]);
        i = i + 1;
        assert(r@ =~= v@.take(i as int));
    }
    assert(r@ =~= v@);
    r
}

} // verus!
