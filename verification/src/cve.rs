//! The transformation layer: pure maps from simulation frames to geometry, and
//! the stable hash that fingerprints encoded frames and scenes.
use std::sync::Arc;
use vstd::prelude::*;

use crate::boundary::runtime::{is_valid_state, share, validate, validation_error};
use crate::boundary::state::{FieldTensor, FieldTensorView, SimulationState, SimulationStateView};
use crate::text::{decimal, push_decimal, push_text, string_from};

verus! {

pub const FNV_OFFSET: u64 = 0xcbf29ce484222325;

pub const FNV_PRIME: u64 = 0x100000001b3;

/// One FNV-1a round: mix in the byte, then multiply by the prime, wrapping at 64 bits.
pub open spec fn fnv_round(hash: u64, byte: u8) -> u64 {
    (((hash ^ (byte as u64)) as nat * FNV_PRIME as nat) % 0x1_0000_0000_0000_0000) as u64
}

/// The 64-bit FNV-1a hash of a byte string.
pub open spec fn fnv1a(bytes: Seq<u8>) -> u64
    decreases bytes.len(),
{
    if bytes.len() == 0 {
        FNV_OFFSET
    } else {
        fnv_round(fnv1a(bytes.drop_last()), bytes.last())
    }
}

/// The 64-bit FNV-1a hash of `bytes`.
pub fn stable_hash64(bytes: &[u8]) -> (hash: u64)
    ensures
        hash == fnv1a(bytes@),
{
    let mut hash: u64 = FNV_OFFSET;
    let mut i: usize = 0;
    while i < bytes.len()
        invariant
            i <= bytes@.len(),
            hash == fnv1a(bytes@.take(i as int)),
        decreases bytes.len() - i,
    {
        assert(bytes@.take(i + 1).drop_last() =~= bytes@.take(i as int));
        hash = hash ^ (bytes[i] as u64);
        hash = hash.wrapping_mul(FNV_PRIME);
        i = i + 1;
    }
    assert(bytes@.take(bytes@.len() as int) =~= bytes@);
    hash
}

/// Each FNV-1a round mixes the byte into the low eight bits of the state and
/// leaves the high 56 bits as they were before multiplying by the prime: the
/// byte's value is taken as it is (0 to 255), never sign-extended. The hash of
/// no bytes is the offset basis.
pub proof fn lemma_fnv_round_mixes_low_byte(s: Seq<u8>, b: u8)
    ensures
        fnv1a(Seq::empty()) == 0xcbf29ce484222325,
        ({
            let h = fnv1a(s);
            fnv1a(s.push(b)) == (((h / 256) * 256 + ((h % 256) as u8 ^ b) as int) * 0x100000001b3) % 0x1_0000_0000_0000_0000
        }),
{
    let h = fnv1a(s);
    assert(s.push(b).drop_last() =~= s);
    assert(fnv1a(s.push(b)) == fnv_round(h, b));
    assert((h ^ (b as u64)) == (h / 256) * 256 + (((h % 256) as u8 ^ b) as u64)) by (bit_vector);
}

// ---------------------------------------------------------------------------
// The triangle mesh over a grid.

/// The six corner indices of the two triangles of the cell whose top-left
/// vertex is column `x` of row `y` on a grid `w` vertices wide.
pub open spec fn cell_indices(w: nat, y: nat, x: nat) -> Seq<u32> {
    let tl = y * w + x;
    seq![tl as u32, (tl + w) as u32, (tl + 1) as u32, (tl + 1) as u32, (tl + w) as u32, (tl + w + 1) as u32]
}

/// The cells of row `y`, columns `0..n`.
pub open spec fn row_indices(w: nat, y: nat, n: nat) -> Seq<u32>
    decreases n,
{
    if n == 0 {
        Seq::empty()
    } else {
        row_indices(w, y, (n - 1) as nat) + cell_indices(w, y, (n - 1) as nat)
    }
}

/// The cells of rows `0..rows`, each of `w - 1` columns.
pub open spec fn grid_indices(w: nat, rows: nat) -> Seq<u32>
    decreases rows,
{
    if rows == 0 {
        Seq::empty()
    } else {
        grid_indices(w, (rows - 1) as nat) + row_indices(w, (rows - 1) as nat, (w - 1) as nat)
    }
}

/// The triangle list over a `w` by `h` grid of vertices: two triangles per cell,
/// cells row by row; nothing when the grid is less than two wide or high.
pub open spec fn mesh_indices(w: nat, h: nat) -> Seq<u32> {
    if w < 2 || h < 2 {
        Seq::empty()
    } else {
        grid_indices(w, (h - 1) as nat)
    }
}

proof fn lemma_row_len(w: nat, y: nat, n: nat)
    ensures
        row_indices(w, y, n).len() == 6 * n,
    decreases n,
{
    if n > 0 {
        lemma_row_len(w, y, (n - 1) as nat);
    }
}

proof fn lemma_grid_len(w: nat, rows: nat)
    requires
        w >= 1,
    ensures
        grid_indices(w, rows).len() == 6 * (w - 1) * rows,
    decreases rows,
{
    if rows > 0 {
        lemma_grid_len(w, (rows - 1) as nat);
        lemma_row_len(w, (rows - 1) as nat, (w - 1) as nat);
        let a: int = w - 1;
        let r: int = rows as int;
        assert(6 * a * r == 6 * a * (r - 1) + 6 * a) by (nonlinear_arith);
        assert(grid_indices(w, rows) == grid_indices(w, (rows - 1) as nat) + row_indices(w, (rows - 1) as nat, (w - 1) as nat));
        assert(grid_indices(w, (rows - 1) as nat).len() == 6 * a * (r - 1));
        assert(row_indices(w, (rows - 1) as nat, (w - 1) as nat).len() == 6 * a);
    } else {
        let a: int = w - 1;
        assert(6 * a * 0 == 0) by (nonlinear_arith);
    }
}

proof fn lemma_row_bounds(w: nat, h: nat, y: nat, n: nat)
    requires
        w >= 2,
        n <= w - 1,
        y + 1 < h,
        w * h <= 0x1_0000_0000,
    ensures
        forall|i: int| 0 <= i < row_indices(w, y, n).len() ==> (#[trigger] row_indices(w, y, n)[i]) < w * h,
    decreases n,
{
    lemma_row_len(w, y, n);
    if n > 0 {
        lemma_row_bounds(w, h, y, (n - 1) as nat);
        let x = (n - 1) as nat;
        let tl = y * w + x;
        assert(tl + w + 1 < w * h) by (nonlinear_arith)
            requires
                tl == y * w + x,
                x + 1 <= w - 1,
                y + 2 <= h,
                w >= 2,
        ;
        let cell = cell_indices(w, y, x);
        assert(cell[0] == tl && cell[1] == tl + w && cell[2] == tl + 1 && cell[3] == tl + 1
            && cell[4] == tl + w && cell[5] == tl + w + 1);
        lemma_row_len(w, y, (n - 1) as nat);
        assert forall|i: int| 0 <= i < row_indices(w, y, n).len() implies (#[trigger] row_indices(w, y, n)[i]) < w * h by {
            let prev = row_indices(w, y, (n - 1) as nat);
            if i >= prev.len() {
                assert(row_indices(w, y, n)[i] == cell[i - prev.len()]);
            } else {
                assert(row_indices(w, y, n)[i] == prev[i]);
            }
        }
    }
}

proof fn lemma_grid_bounds(w: nat, h: nat, rows: nat)
    requires
        w >= 2,
        rows <= h - 1,
        h >= 2,
        w * h <= 0x1_0000_0000,
    ensures
        forall|i: int| 0 <= i < grid_indices(w, rows).len() ==> (#[trigger] grid_indices(w, rows)[i]) < w * h,
    decreases rows,
{
    if rows > 0 {
        let y = (rows - 1) as nat;
        lemma_grid_bounds(w, h, y);
        lemma_row_bounds(w, h, y, (w - 1) as nat);
        assert forall|i: int| 0 <= i < grid_indices(w, rows).len() implies (#[trigger] grid_indices(w, rows)[i]) < w * h by {
            let prev = grid_indices(w, y);
            let row = row_indices(w, y, (w - 1) as nat);
            if i >= prev.len() {
                assert(grid_indices(w, rows)[i] == row[i - prev.len()]);
            } else {
                assert(grid_indices(w, rows)[i] == prev[i]);
            }
        }
    }
}

/// The triangle list over a grid of `w` by `h` vertices holds two triangles,
/// six vertex numbers, per cell of the grid, and every vertex number it holds
/// is a vertex of the grid.
pub proof fn lemma_mesh_shape(w: nat, h: nat)
    requires
        w * h <= 0x1_0000_0000,
    ensures
        mesh_indices(w, h).len() == if w < 2 || h < 2 { 0 } else { 6 * (w - 1) * (h - 1) },
        forall|i: int| 0 <= i < mesh_indices(w, h).len() ==> (#[trigger] mesh_indices(w, h)[i]) < w * h,
{
    if w >= 2 && h >= 2 {
        lemma_grid_len(w, (h - 1) as nat);
        lemma_grid_bounds(w, h, (h - 1) as nat);
    }
}

/// The triangle list over a `width` by `height` grid of vertices.
pub fn mesh_triangle_indices(width: u32, height: u32) -> (indices: Vec<u32>)
    requires
        width as int * height as int <= 0x1_0000_0000,
    ensures
        indices@ == mesh_indices(width as nat, height as nat),
{
    let mut indices: Vec<u32> = Vec::new();
    if width < 2 || height < 2 {
        return indices;
    }
    let w = width as u64;
    let h = height as u64;
    let mut y: u64 = 0;
    while y < h - 1
        invariant
            2 <= w <= u32::MAX,
            2 <= h <= u32::MAX,
            w * h <= 0x1_0000_0000,
            w == width,
            y <= h - 1,
            indices@ == grid_indices(w as nat, y as nat),
        decreases h - 1 - y,
    {
        let mut x: u64 = 0;
        while x < w - 1
            invariant
                2 <= w <= u32::MAX,
                2 <= h <= u32::MAX,
                w * h <= 0x1_0000_0000,
                w == width,
                y < h - 1,
                x <= w - 1,
                indices@ == grid_indices(w as nat, y as nat) + row_indices(w as nat, y as nat, x as nat),
            decreases w - 1 - x,
        {
            assert(y * w + x + w + 1 <= w * h - 1) by (nonlinear_arith)
                requires
                    y < h - 1,
                    x < w - 1,
            ;
            let top_left: u64 = y * w + x;
            let top_right: u64 = top_left + 1;
            let bottom_left: u64 = top_left + w;
            let bottom_right: u64 = bottom_left + 1;
            let ghost before = indices@;
            indices.push(top_left as u32);
            indices.push(bottom_left as u32);
            indices.push(top_right as u32);
            indices.push(top_right as u32);
            indices.push(bottom_left as u32);
            indices.push(bottom_right as u32);
            assert(indices@ =~= before + cell_indices(w as nat, y as nat, x as nat));
            x = x + 1;
        }
        y = y + 1;
    }
    indices
}

// ---------------------------------------------------------------------------
// Scenes.

/// A triangle mesh derived from a frame. Binary32 quantities are held by their
/// bit patterns.
#[derive(Clone, Debug)]
pub struct GeometryScene {
    pub scene_id: String,
    pub source_simulation_id: String,
    pub source_step_index: u64,
    /// Bit patterns of the binary32 vertex coordinates, three per vertex.
    pub positions: Vec<u32>,
    pub indices: Vec<u32>,
    /// Bit pattern of the smallest sample.
    pub value_min: u32,
    /// Bit pattern of the largest sample.
    pub value_max: u32,
}

/// `scene-<simulation>-<step>`.
pub open spec fn scene_id_of(simulation_id: Seq<char>, step_index: u64) -> Seq<char> {
    "scene-"@ + simulation_id + "-"@ + decimal(step_index as nat)
}

/// The identifier of the scene made from a frame.
pub fn scene_id_for(simulation_id: &str, step_index: u64) -> (id: String)
    ensures
        id@ == scene_id_of(simulation_id@, step_index),
{
    let mut id = string_from("scene-");
    push_text(&mut id, simulation_id);
    push_text(&mut id, "-");
    push_decimal(&mut id, step_index);
    id
}

/// The sample at `k`, or the bit pattern of 0.0 when the field holds fewer samples.
pub open spec fn sample_or_zero(values: Seq<u32>, k: int) -> u32 {
    if 0 <= k < values.len() {
        values[k]
    } else {
        0
    }
}

/// The vertex coordinates of a field, three per grid point, channel by channel,
/// row by row: the point's column coordinate, its row coordinate, and its
/// sample. `columns[x]` and `rows[y]` hold the bit patterns of `x * spacing`
/// and `y * spacing`.
pub open spec fn vertex_positions(f: FieldTensorView, columns: Seq<u32>, rows: Seq<u32>) -> Seq<u32> {
    let w = f.width as int;
    let h = f.height as int;
    Seq::new(
        (3 * (w * h * f.channels)) as nat,
        |i: int|
            {
                let k = i / 3;
                if i % 3 == 0 {
                    columns[k % w]
                } else if i % 3 == 1 {
                    rows[(k / w) % h]
                } else {
                    sample_or_zero(f.values, k)
                }
            },
    )
}

/// The vertex coordinates of `f` from the coordinates of its columns and rows.
pub fn vertex_coordinates(f: &FieldTensor, columns: &Vec<u32>, rows: &Vec<u32>) -> (positions: Vec<u32>)
    requires
        columns@.len() == f@.width,
        rows@.len() == f@.height,
        3 * (f@.width as int * f@.height as int * f@.channels as int) <= usize::MAX,
    ensures
        positions@ == vertex_positions(f@, columns@, rows@),
{
    let w = f.width as usize;
    let h = f.height as usize;
    let c = f.channels as usize;
    let mut positions: Vec<u32> = Vec::new();
    if w == 0 || h == 0 || c == 0 {
        proof {
            assert(w as int * h as int * c as int == 0) by (nonlinear_arith)
                requires
                    w == 0 || h == 0 || c == 0,
            ;
            assert(positions@ =~= vertex_positions(f@, columns@, rows@));
        }
        return positions;
    }
    assert(w * h <= w * h * c) by (nonlinear_arith)
        requires
            c >= 1,
    ;
    let n = w * h * c;
    let mut k: usize = 0;
    while k < n
        invariant
            w == f@.width,
            h == f@.height,
            w >= 1,
            h >= 1,
            n == w * h * c,
            c == f@.channels,
            columns@.len() == w,
            rows@.len() == h,
            3 * n <= usize::MAX,
            k <= n,
            positions@ =~= vertex_positions(f@, columns@, rows@).take(3 * k),
        decreases n - k,
    {
        let x = k % w;
        let y = (k / w) % h;
        let sample: u32 = if k < f.values.len() {
            f.values[k]
        } else {
            0
        };
        positions.push(columns[x]);
        positions.push(rows[y]);
        positions.push(sample);
        proof {
            let full = vertex_positions(f@, columns@, rows@);
            let b = 3 * k as int;
            assert(b / 3 == k && b % 3 == 0) by (nonlinear_arith)
                requires
                    b == 3 * k as int,
            ;
            assert((b + 1) / 3 == k && (b + 1) % 3 == 1) by (nonlinear_arith)
                requires
                    b == 3 * k as int,
            ;
            assert((b + 2) / 3 == k && (b + 2) % 3 == 2) by (nonlinear_arith)
                requires
                    b == 3 * k as int,
            ;
            assert(full[b] == columns@[x as int]);
            assert(full[b + 1] == rows@[y as int]);
            assert(full[b + 2] == sample);
            assert(positions@ =~= full.take(3 * (k + 1)));
        }
        k = k + 1;
    }
    positions
}

/// The scene `s` is the one made from frame `state`, whose columns and rows
/// lie at the given coordinates, with the given sample range.
pub open spec fn scene_from(
    state: SimulationStateView,
    columns: Seq<u32>,
    rows: Seq<u32>,
    value_min: u32,
    value_max: u32,
    s: GeometryScene,
) -> bool {
    let f = state.primary_field->0;
    &&& s.scene_id@ == scene_id_of(state.simulation_id, state.step_index)
    &&& s.source_simulation_id@ == state.simulation_id
    &&& s.source_step_index == state.step_index
    &&& s.positions@ == vertex_positions(f, columns, rows)
    &&& s.indices@ == mesh_indices(f.width as nat, f.height as nat)
    &&& s.value_min == value_min
    &&& s.value_max == value_max
}

/// The grid a frame's scene can be built on: its vertex list fits in memory and
/// its vertex numbers fit in 32 bits.
pub open spec fn scene_fits(f: FieldTensorView) -> bool {
    &&& 3 * (f.width as int * f.height as int * f.channels as int) <= usize::MAX
    &&& f.width as int * f.height as int <= 0x1_0000_0000
}

/// Builds the scene of a frame: its identity, the vertex list over its grid
/// and the triangle list. The frame must be one the boundary would accept:
/// a frame without a field, or one that fails `validate`, is refused with the
/// reason. What is binary32 arithmetic comes from the caller: `columns[x]` and
/// `rows[y]` are the bit patterns of `x * cell_spacing` and `y * cell_spacing`,
/// and `value_min`, `value_max` those of the smallest and largest sample.
pub fn map_state_to_scene(
    state: &SimulationState,
    columns: &Vec<u32>,
    rows: &Vec<u32>,
    value_min: u32,
    value_max: u32,
) -> (r: Result<GeometryScene, String>)
    requires
        state@.primary_field is Some ==> {
            let f = state@.primary_field->0;
            &&& scene_fits(f)
            &&& columns@.len() == f.width
            &&& rows@.len() == f.height
        },
    ensures
        match r {
            Ok(s) => {
                &&& state@.primary_field is Some
                &&& is_valid_state(state@)
                &&& scene_from(state@, columns@, rows@, value_min, value_max, s)
            },
            Err(m) => if state@.primary_field is None {
                m@ == "primary_field is missing"@
            } else {
                validation_error(state@) == Some(m@)
            },
        },
{
    let field = match &state.primary_field {
        Some(f) => f,
        None => {
            return Err(string_from("primary_field is missing"));
        },
    };
    proof {
        let f = state@.primary_field->0;
        assert(f.width as int * f.height as int <= f.width as int * f.height as int * f.channels as int
            || f.channels == 0) by (nonlinear_arith);
    }
    match validate(state) {
        Err(e) => {
            return Err(e.reason);
        },
        Ok(()) => {},
    }
    let positions = vertex_coordinates(field, columns, rows);
    let indices = mesh_triangle_indices(field.width, field.height);
    Ok(GeometryScene {
        scene_id: scene_id_for(state.simulation_id.as_str(), state.step_index),
        source_simulation_id: state.simulation_id.clone(),
        source_step_index: state.step_index,
        positions,
        indices,
        value_min,
        value_max,
    })
}

/// The transformation is deterministic: a frame with the same coordinates and
/// sample range gives one scene, field by field.
pub proof fn lemma_scene_deterministic(
    state: SimulationStateView,
    columns: Seq<u32>,
    rows: Seq<u32>,
    value_min: u32,
    value_max: u32,
    a: GeometryScene,
    b: GeometryScene,
)
    requires
        scene_from(state, columns, rows, value_min, value_max, a),
        scene_from(state, columns, rows, value_min, value_max, b),
    ensures
        a.scene_id@ == b.scene_id@,
        a.source_simulation_id@ == b.source_simulation_id@,
        a.source_step_index == b.source_step_index,
        a.positions@ == b.positions@,
        a.indices@ == b.indices@,
        a.value_min == b.value_min,
        a.value_max == b.value_max,
{
}

// ---------------------------------------------------------------------------
// The cache of the last frame handed over by the boundary.

/// Holds the last frame the boundary handed over.
#[derive(Clone, Debug)]
pub struct StateCache {
    state: Option<Arc<SimulationState>>,
}

impl StateCache {
    /// The frame held, if any.
    pub closed spec fn held(&self) -> Option<SimulationStateView> {
        match self.state {
            Some(s) => Some((*s)@),
            None => None,
        }
    }

    pub fn new() -> (r: Self)
        ensures
            r.held() is None,
    {
        StateCache { state: None }
    }

    /// Holds `snapshot` in place of what was held.
    pub fn accept(&mut self, snapshot: Arc<SimulationState>)
        ensures
            final(self).held() == Some(snapshot@),
    {
        self.state = Some(snapshot);
    }

    /// A shared handle to the frame held.
    pub fn get(&self) -> (r: Option<Arc<SimulationState>>)
        ensures
            match r {
                Some(s) => self.held() == Some(s@),
                None => self.held() is None,
            },
    {
        match &self.state {
            Some(s) => Some(share(s)),
            None => None,
        }
    }
}

impl Default for StateCache {
    fn default() -> (r: Self)
        ensures
            r.held() is None,
    {
        Self::new()
    }
}

} // verus!
