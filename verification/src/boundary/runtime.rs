//! The boundary runtime: validated ownership of the current simulation frame.
use std::sync::Arc;
use vstd::prelude::*;

use crate::boundary::state::{FieldTensor, FieldTensorView, SimulationState, SimulationStateView};
use crate::ieee754::{
    b32_at_most_zero, b32_is_finite, b64_below_zero, b64_is_finite, b64_le, binary32_at_most_zero,
    binary32_is_finite, binary64_below_zero, binary64_is_finite, binary64_le,
};
use crate::text::{
    decimal, hex16, is_blank, push_decimal, push_hex16, push_text, string_from, text_is_blank,
};

verus! {

/// A frame was refused.
#[derive(Debug, Clone, PartialEq, Eq)]
pub struct ValidationError {
    pub reason: String,
}

/// A step could not be carried out.
#[derive(Debug, Clone, PartialEq, Eq)]
pub struct ExecutionError {
    pub reason: String,
}

impl ValidationError {
    /// The text that `Display` shows: `ValidationError: <reason>`.
    pub fn message(&self) -> (s: String)
        ensures
            s@ == "ValidationError: "@ + self.reason@,
    {
        let mut s = string_from("ValidationError: ");
        push_text(&mut s, self.reason.as_str());
        s
    }
}

impl ExecutionError {
    /// The text that `Display` shows: `ExecutionError: <reason>`.
    pub fn message(&self) -> (s: String)
        ensures
            s@ == "ExecutionError: "@ + self.reason@,
    {
        let mut s = string_from("ExecutionError: ");
        push_text(&mut s, self.reason.as_str());
        s
    }
}

/// Number of samples a field's grid calls for.
pub open spec fn grid_cells(f: FieldTensorView) -> int {
    f.width * f.height * f.channels
}

/// The reason for the length mismatch.
pub open spec fn length_mismatch_reason(expected: int, got: int) -> Seq<char> {
    "primary_field values length mismatch: expected "@ + decimal(expected as nat) + ", got "@
        + decimal(got as nat)
}

/// The checks on a field, in order; `None` when the field passes them all.
pub open spec fn field_error(f: FieldTensorView) -> Option<Seq<char>> {
    if f.width < 2 || f.height < 2 {
        Some("primary_field grid must be at least 2x2"@)
    } else if f.channels == 0 {
        Some("primary_field channels must be >= 1"@)
    } else if !b32_is_finite(f.cell_spacing) || b32_at_most_zero(f.cell_spacing) {
        Some("primary_field cell_spacing must be finite and positive"@)
    } else if f.values.len() != grid_cells(f) {
        Some(length_mismatch_reason(grid_cells(f), f.values.len() as int))
    } else if exists|i: int| 0 <= i < f.values.len() && !b32_is_finite(#[trigger] f.values[i]) {
        Some("primary_field contains non-finite values"@)
    } else {
        None
    }
}

/// The checks on a frame's identity and field, in order; `None` when it passes them all.
pub open spec fn frame_error(s: SimulationStateView) -> Option<Seq<char>> {
    if is_blank(s.simulation_id) {
        Some("simulation_id must not be empty"@)
    } else if is_blank(s.solver_kind) {
        Some("solver_kind must not be empty"@)
    } else {
        match s.primary_field {
            None => Some("primary_field is missing"@),
            Some(f) => field_error(f),
        }
    }
}

/// The checks come as far as the length check, whose product must fit in `usize`
/// (the product is taken in `usize` and overflow stops the program).
pub open spec fn length_check_fits(s: SimulationStateView) -> bool {
    match s.primary_field {
        Some(f) => (!is_blank(s.simulation_id) && !is_blank(s.solver_kind) && f.width >= 2
            && f.height >= 2 && f.channels != 0 && b32_is_finite(f.cell_spacing)
            && !b32_at_most_zero(f.cell_spacing)) ==> grid_cells(f) <= usize::MAX,
        None => true,
    }
}

/// Why `validate` refuses a frame, or `None` when it accepts it.
pub open spec fn validation_error(s: SimulationStateView) -> Option<Seq<char>> {
    match frame_error(s) {
        Some(m) => Some(m),
        None => if !b64_is_finite(s.simulation_time) || b64_below_zero(s.simulation_time) {
            Some("simulation_time must be finite and non-negative"@)
        } else {
            None
        },
    }
}

/// A frame that `validate` accepts.
pub open spec fn is_valid_state(s: SimulationStateView) -> bool {
    validation_error(s) is None
}

/// Why `update` refuses a new frame after `current`, or `None` when it accepts it.
pub open spec fn update_error(current: SimulationStateView, next: SimulationStateView) -> Option<
    Seq<char>,
> {
    match validation_error(next) {
        Some(m) => Some(m),
        None => if next.simulation_id != current.simulation_id {
            Some("simulation_id mismatch: cannot switch simulation context"@)
        } else if next.solver_kind != current.solver_kind {
            Some("solver_kind mismatch: cannot change solver mid-simulation"@)
        } else if next.step_index <= current.step_index {
            Some(
                "step_index must strictly increase: current="@ + decimal(current.step_index as nat)
                    + ", proposed="@ + decimal(next.step_index as nat),
            )
        } else if b64_le(next.simulation_time, current.simulation_time) {
            Some(
                "simulation_time must increase: current=0x"@ + hex16(current.simulation_time as nat)
                    + ", proposed=0x"@ + hex16(next.simulation_time as nat),
            )
        } else {
            None
        },
    }
}

fn check_field(f: &FieldTensor) -> (r: Result<(), String>)
    requires
        f@.width >= 2 && f@.height >= 2 && f@.channels != 0 && b32_is_finite(f@.cell_spacing)
            && !b32_at_most_zero(f@.cell_spacing) ==> grid_cells(f@) <= usize::MAX,
    ensures
        match r {
            Ok(()) => field_error(f@) is None,
            Err(m) => field_error(f@) == Some(m@),
        },
{
    if f.width < 2 || f.height < 2 {
        return Err(string_from("primary_field grid must be at least 2x2"));
    }
    if f.channels == 0 {
        return Err(string_from("primary_field channels must be >= 1"));
    }
    if !binary32_is_finite(f.cell_spacing) || binary32_at_most_zero(f.cell_spacing) {
        return Err(string_from("primary_field cell_spacing must be finite and positive"));
    }
    let w = f.width as usize;
    let h = f.height as usize;
    let c = f.channels as usize;
    assert(w * h <= w * h * c) by (nonlinear_arith)
        requires
            c >= 1,
    ;
    let expected = w * h * c;
    assert(expected == grid_cells(f@));
    if f.values.len() != expected {
        let mut m = string_from("primary_field values length mismatch: expected ");
        push_decimal(&mut m, expected as u64);
        push_text(&mut m, ", got ");
        push_decimal(&mut m, f.values.len() as u64);
        return Err(m);
    }
    let mut i: usize = 0;
    while i < f.values.len()
        invariant
            i <= f.values@.len(),
            forall|j: int| 0 <= j < i ==> b32_is_finite(#[trigger] f.values@[j]),
            f@.width >= 2 && f@.height >= 2 && f@.channels != 0,
            b32_is_finite(f@.cell_spacing) && !b32_at_most_zero(f@.cell_spacing),
            f@.values.len() == grid_cells(f@),
        decreases f.values.len() - i,
    {
        if !binary32_is_finite(f.values[i]) {
            assert(!b32_is_finite(f@.values[i as int]));
            return Err(string_from("primary_field contains non-finite values"));
        }
        i = i + 1;
    }
    Ok(())
}

/// Checks the identity and field of a frame, in the order of `frame_error`.
pub fn check_frame(state: &SimulationState) -> (r: Result<(), String>)
    requires
        length_check_fits(state@),
    ensures
        match r {
            Ok(()) => frame_error(state@) is None,
            Err(m) => frame_error(state@) == Some(m@),
        },
{
    if text_is_blank(state.simulation_id.as_str()) {
        return Err(string_from("simulation_id must not be empty"));
    }
    if text_is_blank(state.solver_kind.as_str()) {
        return Err(string_from("solver_kind must not be empty"));
    }
    match &state.primary_field {
        None => Err(string_from("primary_field is missing")),
        Some(f) => check_field(f),
    }
}

/// Checks a frame before it may enter the boundary.
pub fn validate(state: &SimulationState) -> (r: Result<(), ValidationError>)
    requires
        length_check_fits(state@),
    ensures
        match r {
            Ok(()) => is_valid_state(state@),
            Err(e) => validation_error(state@) == Some(e.reason@),
        },
{
    match check_frame(state) {
        Err(reason) => Err(ValidationError { reason }),
        Ok(()) => {
            if !binary64_is_finite(state.simulation_time) || binary64_below_zero(
                state.simulation_time,
            ) {
                Err(ValidationError { reason: string_from("simulation_time must be finite and non-negative") })
            } else {
                Ok(())
            }
        },
    }
}

/// Whether `validate` can be asked about `state`: when its checks reach the
/// length check, the number of samples the grid calls for fits in `usize`.
pub fn frame_length_fits(state: &SimulationState) -> (b: bool)
    ensures
        b == length_check_fits(state@),
{
    match &state.primary_field {
        None => true,
        Some(f) => {
            let reached = !text_is_blank(state.simulation_id.as_str()) && !text_is_blank(
                state.solver_kind.as_str(),
            ) && f.width >= 2 && f.height >= 2 && f.channels != 0 && binary32_is_finite(
                f.cell_spacing,
            ) && !binary32_at_most_zero(f.cell_spacing);
            if !reached {
                return true;
            }
            let w = f.width as u128;
            let h = f.height as u128;
            let c = f.channels as u128;
            assert(w * h <= 0xffff_ffff * 0xffff_ffff) by (nonlinear_arith)
                requires
                    w <= 0xffff_ffff,
                    h <= 0xffff_ffff,
            ;
            assert(w * h * c <= 0xffff_ffff * 0xffff_ffff * 0xffff_ffff) by (nonlinear_arith)
                requires
                    w * h <= 0xffff_ffff * 0xffff_ffff,
                    c <= 0xffff_ffff,
            ;
            w * h * c <= usize::MAX as u128
        },
    }
}

/// A shared handle to the same frame (`Arc::clone`).
#[verifier::external_body]
pub(crate) fn share<T>(a: &Arc<T>) -> (r: Arc<T>)
    ensures
        r == *a,
{
    Arc::clone(a)
}

/// What the kernel hands back for a step: the grid of the field it produced
/// and its samples (bit patterns of binary32 values).
#[derive(Debug, Clone)]
pub struct KernelFrame {
    pub width: u32,
    pub height: u32,
    pub values: Vec<u32>,
}

/// Owner of the current frame of one simulation. Every frame it takes in has
/// passed `validate`; the simulation and solver never change; steps only go forward.
pub struct BoundaryRuntime {
    state: Arc<SimulationState>,
    simulation_id: Arc<String>,
    solver_kind: Arc<String>,
}

impl View for BoundaryRuntime {
    type V = SimulationStateView;

    /// The current frame.
    closed spec fn view(&self) -> SimulationStateView {
        (*self.state)@
    }
}

impl BoundaryRuntime {
    #[verifier::type_invariant]
    spec fn identity_kept(self) -> bool {
        &&& self.simulation_id@ == self.state.simulation_id@
        &&& self.solver_kind@ == self.state.solver_kind@
        &&& is_valid_state((*self.state)@)
    }

    /// Takes ownership of a first frame, which must pass `validate`.
    pub fn init(initial_state: SimulationState) -> (r: Result<Self, ValidationError>)
        requires
            length_check_fits(initial_state@),
        ensures
            match r {
                Ok(rt) => is_valid_state(initial_state@) && rt@ == initial_state@,
                Err(e) => validation_error(initial_state@) == Some(e.reason@),
            },
    {
        validate(&initial_state)?;
        let simulation_id = initial_state.simulation_id.clone();
        let solver_kind = initial_state.solver_kind.clone();
        Ok(BoundaryRuntime {
            state: Arc::new(initial_state),
            simulation_id: Arc::new(simulation_id),
            solver_kind: Arc::new(solver_kind),
        })
    }

    /// Replaces the current frame by `new_state` when it passes `validate`, keeps
    /// the simulation and solver, and moves step and time strictly forward.
    /// A refused frame leaves the runtime as it was.
    pub fn update(&mut self, new_state: SimulationState) -> (r: Result<(), ValidationError>)
        requires
            length_check_fits(new_state@),
        ensures
            match r {
                Ok(()) => update_error(old(self)@, new_state@) is None && final(self)@
                    == new_state@,
                Err(e) => update_error(old(self)@, new_state@) == Some(e.reason@) && final(self)@
                    == old(self)@,
            },
    {
        proof {
            use_type_invariant(&*self);
        }
        validate(&new_state)?;
        let same_id: bool = new_state.simulation_id == *self.simulation_id;
        if !same_id {
            return Err(ValidationError {
                reason: string_from("simulation_id mismatch: cannot switch simulation context"),
            });
        }
        let same_solver: bool = new_state.solver_kind == *self.solver_kind;
        if !same_solver {
            return Err(ValidationError {
                reason: string_from("solver_kind mismatch: cannot change solver mid-simulation"),
            });
        }
        let current_step = self.state.step_index;
        if new_state.step_index <= current_step {
            let mut reason = string_from("step_index must strictly increase: current=");
            push_decimal(&mut reason, current_step);
            push_text(&mut reason, ", proposed=");
            push_decimal(&mut reason, new_state.step_index);
            return Err(ValidationError { reason });
        }
        if binary64_le(new_state.simulation_time, self.state.simulation_time) {
            let mut reason = string_from("simulation_time must increase: current=0x");
            push_hex16(&mut reason, self.state.simulation_time);
            push_text(&mut reason, ", proposed=0x");
            push_hex16(&mut reason, new_state.simulation_time);
            return Err(ValidationError { reason });
        }
        self.state = Arc::new(new_state);
        Ok(())
    }

    /// Advances the frame by `count` steps.
    ///
    /// The numerical work happens outside: `advanced` is what the kernel
    /// returned for the current field (`None` when it failed), its grid and
    /// its samples, and `simulation_time` is the bit pattern of the advanced
    /// time. The new frame takes the kernel's grid and samples and keeps
    /// everything else of the current one, with `step_index` moved by `count`;
    /// it is checked as `validate` checks a frame before the boundary takes
    /// it, and a kernel result that fails the checks is refused with their
    /// reason. On an error the runtime is left as it was.
    pub fn step(
        &mut self,
        count: u64,
        advanced: Option<KernelFrame>,
        simulation_time: u64,
    ) -> (r: Result<Arc<SimulationState>, ExecutionError>)
        requires
            old(self)@.step_index + count <= u64::MAX,
            advanced is Some ==> advanced->0.width as int * advanced->0.height as int
                * old(self)@.primary_field->0.channels as int <= usize::MAX,
        ensures
            match r {
                Ok(snapshot) => {
                    &&& advanced is Some
                    &&& final(self)@ == stepped(old(self)@, count, advanced->0@, simulation_time)
                    &&& is_valid_state(final(self)@)
                    &&& snapshot@ == final(self)@
                },
                Err(e) => {
                    &&& final(self)@ == old(self)@
                    &&& match advanced {
                        None => e.reason@ == "kernel advance state failed"@,
                        Some(k) => validation_error(stepped(old(self)@, count, k@, simulation_time))
                            == Some(e.reason@),
                    }
                },
            },
    {
        proof {
            use_type_invariant(&*self);
        }
        let current_step = self.state.step_index;
        let target_step = current_step + count;
        let field = match &self.state.primary_field {
            Some(f) => f,
            None => {
                return Err(ExecutionError { reason: string_from("primary_field is missing") });
            },
        };
        let kernel = match advanced {
            Some(k) => k,
            None => {
                return Err(ExecutionError { reason: string_from("kernel advance state failed") });
            },
        };
        let new_field = FieldTensor {
            field_name: field.field_name.clone(),
            field_kind: field.field_kind.clone(),
            width: kernel.width,
            height: kernel.height,
            channels: field.channels,
            cell_spacing: field.cell_spacing,
            values: kernel.values,
        };
        let new_state = SimulationState {
            simulation_id: self.state.simulation_id.clone(),
            solver_kind: self.state.solver_kind.clone(),
            step_index: target_step,
            simulation_time,
            primary_field: Some(new_field),
        };
        match validate(&new_state) {
            Err(e) => {
                return Err(ExecutionError { reason: e.reason });
            },
            Ok(()) => {},
        }
        self.state = Arc::new(new_state);
        Ok(share(&self.state))
    }

    /// A shared handle to the current frame.
    pub fn get_snapshot(&self) -> (r: Arc<SimulationState>)
        ensures
            r@ == self@,
            is_valid_state(r@),
    {
        proof {
            use_type_invariant(self);
        }
        share(&self.state)
    }
}

/// The content of a `KernelFrame`.
pub struct KernelFrameView {
    pub width: u32,
    pub height: u32,
    pub values: Seq<u32>,
}

impl View for KernelFrame {
    type V = KernelFrameView;

    open spec fn view(&self) -> KernelFrameView {
        KernelFrameView { width: self.width, height: self.height, values: self.values@ }
    }
}

/// The frame after a step of `count` whose kernel produced the grid and
/// samples of `k`, at time `time`.
pub open spec fn stepped(s: SimulationStateView, count: u64, k: KernelFrameView, time: u64) -> SimulationStateView {
    SimulationStateView {
        step_index: (s.step_index + count) as u64,
        simulation_time: time,
        primary_field: Some(FieldTensorView { width: k.width, height: k.height, values: k.values, ..s.primary_field->0 }),
        ..s
    }
}

/// A frame the boundary accepts after `current` passes validation, belongs to
/// the same simulation and solver, and moves both step and time forward.
pub proof fn lemma_accepted_update_moves_forward(current: SimulationStateView, next: SimulationStateView)
    requires
        update_error(current, next) is None,
    ensures
        is_valid_state(next),
        next.simulation_id == current.simulation_id,
        next.solver_kind == current.solver_kind,
        next.step_index > current.step_index,
        !b64_le(next.simulation_time, current.simulation_time),
{
}

/// A step keeps the simulation, the solver, the field's name, kind, channels
/// and spacing, takes the kernel's grid and samples, and moves the step index
/// by the count. When the kernel hands back a grid of at least two by two
/// with one finite sample per cell and channel, and the new time is finite and
/// not negative, a valid frame stays valid.
pub proof fn lemma_step_keeps_frame(s: SimulationStateView, count: u64, k: KernelFrameView, time: u64)
    requires
        s.primary_field is Some,
        s.step_index + count <= u64::MAX,
    ensures
        ({
            let n = stepped(s, count, k, time);
            let f = s.primary_field->0;
            let g = n.primary_field->0;
            &&& n.simulation_id == s.simulation_id
            &&& n.solver_kind == s.solver_kind
            &&& n.step_index == s.step_index + count
            &&& n.simulation_time == time
            &&& g.field_name == f.field_name && g.field_kind == f.field_kind
            &&& g.channels == f.channels && g.cell_spacing == f.cell_spacing
            &&& g.width == k.width && g.height == k.height && g.values == k.values
        }),
        (is_valid_state(s) && k.width >= 2 && k.height >= 2
            && k.values.len() == k.width * k.height * s.primary_field->0.channels
            && (forall|i: int| 0 <= i < k.values.len() ==> b32_is_finite(#[trigger] k.values[i]))
            && b64_is_finite(time) && !b64_below_zero(time)) ==> is_valid_state(stepped(s, count, k, time)),
{
    let n = stepped(s, count, k, time);
    if is_valid_state(s) && k.width >= 2 && k.height >= 2
        && k.values.len() == k.width * k.height * s.primary_field->0.channels
        && (forall|i: int| 0 <= i < k.values.len() ==> b32_is_finite(#[trigger] k.values[i]))
        && b64_is_finite(time) && !b64_below_zero(time) {
        let g = n.primary_field->0;
        assert(!(exists|i: int| 0 <= i < g.values.len() && !b32_is_finite(#[trigger] g.values[i])));
        assert(field_error(g) is None);
    }
}

/// The boundary takes only frames whose grid spacing is a positive finite
/// binary32 and whose time is a finite binary64 that is not below zero: a
/// valid frame's spacing pattern lies in `1..0x7f80_0000` and its time pattern
/// is below `0x7ff0_0000_0000_0000` or is -0. A frame that passes the checks
/// before the spacing but whose spacing is zero, negative or not finite is
/// refused for its spacing.
pub proof fn lemma_valid_frame_quantities(s: SimulationStateView)
    ensures
        is_valid_state(s) ==> {
            &&& s.primary_field is Some
            &&& 0 < s.primary_field->0.cell_spacing < 0x7f80_0000
            &&& (s.simulation_time < 0x7ff0_0000_0000_0000 || s.simulation_time == 0x8000_0000_0000_0000)
        },
        ({
            let f = s.primary_field->0;
            &&& s.primary_field is Some
            &&& !is_blank(s.simulation_id)
            &&& !is_blank(s.solver_kind)
            &&& f.width >= 2 && f.height >= 2 && f.channels != 0
            &&& !(0 < f.cell_spacing < 0x7f80_0000)
        }) ==> validation_error(s) == Some("primary_field cell_spacing must be finite and positive"@),
{
    if s.primary_field is Some {
        crate::ieee754::lemma_b32_at_most_zero_patterns(s.primary_field->0.cell_spacing);
    }
    crate::ieee754::lemma_b64_below_zero_patterns(s.simulation_time);
}

} // verus!
