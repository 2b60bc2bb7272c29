//! The in-memory aggregate persisted for one plot: its tick rate (raw
//! encoding), a visualization flag, the fixed grid of chunk payloads, and
//! the pending scheduled-tick entries — plus the procedurally generated
//! default template used when no saved plot exists.

use vstd::prelude::*;

verus! {

/// Side length of a plot's square chunk grid; the chunk sequence of every
/// well-formed snapshot has exactly `PLOT_WIDTH * PLOT_WIDTH` entries.
pub const PLOT_WIDTH: i32 = 8;

/// World-height parameter handed to chunk generation when the default
/// template is built procedurally.
pub const DEFAULT_WORLD_HEIGHT: u32 = 8;

/// One chunk's persisted payload: its grid position and its serialized
/// terrain sections. The terrain bytes are opaque to this core — produced
/// and consumed by the chunk engine.
#[derive(Clone, Debug, PartialEq, Eq)]
pub struct ChunkData {
    pub x: i32,
    pub z: i32,
    pub blocks: Vec<u8>,
}

/// Mathematical image of a `ChunkData`.
#[verifier::ext_equal]
pub struct ChunkDataV {
    pub x: i32,
    pub z: i32,
    pub blocks: Seq<u8>,
}

impl View for ChunkData {
    type V = ChunkDataV;

    open spec fn view(&self) -> ChunkDataV {
        ChunkDataV { x: self.x, z: self.z, blocks: self.blocks@ }
    }
}

/// One pending scheduled simulation event: a block position, the number of
/// ticks left before it fires, and its priority. Semantics belong to the
/// tick-scheduling engine; this core only persists the entries in order.
#[derive(Clone, Copy, Debug, PartialEq, Eq, Structural)]
pub struct TickEntry {
    pub x: i32,
    pub y: i32,
    pub z: i32,
    pub ticks_left: u32,
    pub priority: u32,
}

/// Everything persisted for one plot.
#[derive(Clone, Debug, PartialEq, Eq)]
pub struct PlotData {
    /// Raw 32-bit tick-rate encoding (see `crate::tick::Tps`), stored raw so
    /// the on-disk layout is independent of the in-memory variant type.
    pub tps: u32,
    /// Whether redstone-state visualization is active.
    pub show_redstone: bool,
    /// Chunk payloads in row-major (x-major, then z) grid order.
    pub chunk_data: Vec<ChunkData>,
    /// Pending scheduled-tick entries, in order.
    pub pending_ticks: Vec<TickEntry>,
}

/// Mathematical image of a `PlotData`.
#[verifier::ext_equal]
pub struct PlotDataV {
    pub tps: u32,
    pub show_redstone: bool,
    pub chunk_data: Seq<ChunkDataV>,
    pub pending_ticks: Seq<TickEntry>,
}

impl View for PlotData {
    type V = PlotDataV;

    open spec fn view(&self) -> PlotDataV {
        PlotDataV {
            tps: self.tps,
            show_redstone: self.show_redstone,
            chunk_data: self.chunk_data@.map_values(|c: ChunkData| c@),
            pending_ticks: self.pending_ticks@,
        }
    }
}

/// The blank chunk the grid generator produces for position `(x, z)`: one
/// zeroed section byte per unit of world height.
pub open spec fn spec_blank_chunk(world_height: u32, x: i32, z: i32) -> ChunkDataV {
    ChunkDataV { x, z, blocks: Seq::new(world_height as nat, |i: int| 0u8) }
}

/// Stands in for the chunk engine's generator: a blank chunk payload for
/// grid position `(x, z)`, sized by the world-height parameter.
pub fn generate_chunk(world_height: u32, chunk_x: i32, chunk_z: i32) -> (c: ChunkData)
    ensures
        c@ == spec_blank_chunk(world_height, chunk_x, chunk_z),
{
    let mut blocks: Vec<u8> = Vec::new();
    let mut i: u32 = 0;
    while i < world_height
        invariant
            i <= world_height,
            blocks@ =~= Seq::new(i as nat, |j: int| 0u8),
        decreases world_height - i,
    {
        blocks.push(0);
        i = i + 1;
    }
    let c = ChunkData { x: chunk_x, z: chunk_z, blocks };
    assert(c@ =~= spec_blank_chunk(world_height, chunk_x, chunk_z));
    c
}

/// The procedurally generated default template: bounded tick rate 10,
/// redstone visualization on, a blank chunk for every grid position in
/// row-major order, and no pending ticks.
pub open spec fn spec_default_template() -> PlotDataV {
    PlotDataV {
        tps: 10u32,
        show_redstone: true,
        chunk_data: Seq::new(
            (PLOT_WIDTH * PLOT_WIDTH) as nat,
            |i: int| spec_blank_chunk(
                DEFAULT_WORLD_HEIGHT,
                (i / (PLOT_WIDTH as int)) as i32,
                (i % (PLOT_WIDTH as int)) as i32,
            ),
        ),
        pending_ticks: Seq::empty(),
    }
}

impl PlotData {
    /// Builds the default template. The result is pinned exactly, so every
    /// call — from any thread, in any order — yields the same snapshot; the
    /// unverified shell memoizes it behind a once-only cell.
    pub fn default_template() -> (p: PlotData)
        ensures
            p@ == spec_default_template(),
    {
        let total: i32 = PLOT_WIDTH * PLOT_WIDTH;
        let mut chunks: Vec<ChunkData> = Vec::new();
        let mut i: i32 = 0;
        while i < total
            invariant
                total == PLOT_WIDTH * PLOT_WIDTH,
                0 <= i <= total,
                chunks@.len() == i,
                forall|j: int|
                    0 <= j < i ==> (#[trigger] chunks@[j])@ == spec_default_template().chunk_data[j],
            decreases total - i,
        {
            let cx = i / PLOT_WIDTH;
            let cz = i % PLOT_WIDTH;
            let c = generate_chunk(DEFAULT_WORLD_HEIGHT, cx, cz);
            proof {
                assert(cx == (i as int) / (PLOT_WIDTH as int) && cz == (i as int) % (
                PLOT_WIDTH as int));
                assert(c@ == spec_default_template().chunk_data[i as int]);
            }
            chunks.push(c);
            i = i + 1;
        }
        let p = PlotData {
            tps: crate::tick::Tps::Limited(10).to_data(),
            show_redstone: true,
            chunk_data: chunks,
            pending_ticks: Vec::new(),
        };
        assert(p@ =~= spec_default_template());
        p
    }
}

impl Default for PlotData {
    /// A fresh copy of the procedurally generated default template. (When an
    /// operator supplies a template file, the unverified shell loads that
    /// file instead and fails fatally if it is corrupt.)
    fn default() -> (p: PlotData)
        ensures
            p@ == spec_default_template(),
    {
        PlotData::default_template()
    }
}

/// Grid-shape law: the default template's chunk sequence has exactly
/// `PLOT_WIDTH * PLOT_WIDTH` entries; the entry at index `i` sits at grid
/// position `(i / PLOT_WIDTH, i % PLOT_WIDTH)`, and every `(x, z)` pair of
/// the grid appears at exactly one index, namely `x * PLOT_WIDTH + z`.
pub proof fn lemma_default_grid_shape()
    ensures
        spec_default_template().chunk_data.len() == PLOT_WIDTH * PLOT_WIDTH,
        forall|i: int|
            0 <= i < PLOT_WIDTH * PLOT_WIDTH ==> {
                &&& (#[trigger] spec_default_template().chunk_data[i]).x == i / (PLOT_WIDTH as int)
                &&& spec_default_template().chunk_data[i].z == i % (PLOT_WIDTH as int)
            },
        forall|x: i32, z: i32|
            0 <= x < PLOT_WIDTH && 0 <= z < PLOT_WIDTH ==> {
                &&& 0 <= #[trigger] grid_index(x, z) < PLOT_WIDTH * PLOT_WIDTH
                &&& spec_default_template().chunk_data[grid_index(x, z)].x == x
                &&& spec_default_template().chunk_data[grid_index(x, z)].z == z
            },
{
    assert forall|x: i32, z: i32| 0 <= x < PLOT_WIDTH && 0 <= z < PLOT_WIDTH implies {
        &&& 0 <= #[trigger] grid_index(x, z) < PLOT_WIDTH * PLOT_WIDTH
        &&& spec_default_template().chunk_data[grid_index(x, z)].x == x
        &&& spec_default_template().chunk_data[grid_index(x, z)].z == z
    } by {
        let i = grid_index(x, z);
        assert(i == x * 8 + z && 0 <= i < 64 && i / 8 == x && i % 8 == z) by (nonlinear_arith)
            requires
                0 <= x < 8 && 0 <= z < 8 && i == x * (PLOT_WIDTH as int) + z
                    && PLOT_WIDTH == 8i32,
        ;
    }
}

/// Row-major index of grid position `(x, z)`.
pub open spec fn grid_index(x: i32, z: i32) -> int {
    x * (PLOT_WIDTH as int) + z
}

} // verus!
