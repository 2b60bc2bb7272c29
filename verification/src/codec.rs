//! The fixed on-disk binary layout of a plot snapshot, and the verified
//! encoder and decoder for it.
//!
//! A plot file is the 8-byte magic header followed by the payload: the raw
//! tick-rate `u32`, the redstone flag as one byte, then the chunk sequence
//! and the pending-tick sequence, each as a 64-bit count followed by its
//! entries. All integers are little-endian; a byte string is a 64-bit length
//! followed by its bytes. The layout is fixed: any change to it is a breaking
//! format change, detected only through the magic header (no version byte,
//! no migration).

use crate::snapshot::{ChunkData, ChunkDataV, PlotData, PlotDataV, TickEntry};
use vstd::bytes::{
    lemma_auto_spec_u32_to_from_le_bytes, lemma_auto_spec_u64_to_from_le_bytes,
    spec_u32_from_le_bytes, spec_u32_to_le_bytes, spec_u64_from_le_bytes, spec_u64_to_le_bytes,
    u32_from_le_bytes, u32_to_le_bytes, u64_from_le_bytes, u64_to_le_bytes,
};
use vstd::prelude::*;
use vstd::slice::{slice_subrange, slice_to_vec};

verus! {

/// The 8-byte magic sequence that opens every plot file.
pub open spec fn spec_magic() -> Seq<u8> {
    seq![0x86u8, 0x4Du8, 0x43u8, 0x48u8, 0x50u8, 0x52u8, 0x53u8, 0x00u8]
}

/// Why a byte string failed to load as a plot snapshot.
#[derive(Clone, Copy, Debug, PartialEq, Eq, Structural)]
pub enum LoadError {
    /// The first 8 bytes are missing or differ from the magic sequence:
    /// not a plot file, or an incompatible format (no migration is
    /// attempted).
    BadHeader,
    /// The magic matched but the payload is truncated, structurally
    /// invalid, or followed by trailing garbage.
    CorruptPayload,
}

/// The sequence lengths fit the 64-bit counts the layout stores. Every
/// snapshot actually held in memory satisfies this, since its sequences
/// are `Vec`s.
pub open spec fn wf_chunk(c: ChunkDataV) -> bool {
    c.blocks.len() < 0x1_0000_0000_0000_0000
}

/// Well-formedness of a snapshot image: all sequence lengths fit u64.
pub open spec fn wf_plot(p: PlotDataV) -> bool {
    &&& p.chunk_data.len() < 0x1_0000_0000_0000_0000
    &&& p.pending_ticks.len() < 0x1_0000_0000_0000_0000
    &&& forall|i: int| 0 <= i < p.chunk_data.len() ==> wf_chunk(#[trigger] p.chunk_data[i])
}

// ---------------------------------------------------------------------------
// Encoding, at the specification level.
// ---------------------------------------------------------------------------

/// One byte: 1 for true, 0 for false.
pub open spec fn spec_enc_bool(b: bool) -> Seq<u8> {
    seq![if b { 1u8 } else { 0u8 }]
}

/// An `i32` is stored as its two's-complement `u32` image, little-endian.
pub open spec fn spec_enc_i32(v: i32) -> Seq<u8> {
    spec_u32_to_le_bytes(v as u32)
}

/// A byte string: 64-bit length, then the bytes.
pub open spec fn spec_enc_bytes(s: Seq<u8>) -> Seq<u8> {
    spec_u64_to_le_bytes(s.len() as u64) + s
}

/// A chunk payload: grid x, grid z, terrain bytes.
pub open spec fn spec_enc_chunk(c: ChunkDataV) -> Seq<u8> {
    spec_enc_i32(c.x) + spec_enc_i32(c.z) + spec_enc_bytes(c.blocks)
}

/// Chunk entries, in order (the count is stored by the caller).
pub open spec fn spec_enc_chunks(s: Seq<ChunkDataV>) -> Seq<u8>
    decreases s.len(),
{
    if s.len() == 0 {
        Seq::empty()
    } else {
        spec_enc_chunk(s[0]) + spec_enc_chunks(s.drop_first())
    }
}

/// A pending-tick entry: position x, y, z, ticks left, priority.
pub open spec fn spec_enc_tick(t: TickEntry) -> Seq<u8> {
    spec_enc_i32(t.x) + spec_enc_i32(t.y) + spec_enc_i32(t.z) + spec_u32_to_le_bytes(t.ticks_left)
        + spec_u32_to_le_bytes(t.priority)
}

/// Tick entries, in order (the count is stored by the caller).
pub open spec fn spec_enc_ticks(s: Seq<TickEntry>) -> Seq<u8>
    decreases s.len(),
{
    if s.len() == 0 {
        Seq::empty()
    } else {
        spec_enc_tick(s[0]) + spec_enc_ticks(s.drop_first())
    }
}

/// The payload that follows the magic header.
pub open spec fn spec_payload_bytes(p: PlotDataV) -> Seq<u8> {
    spec_u32_to_le_bytes(p.tps) + spec_enc_bool(p.show_redstone) + spec_u64_to_le_bytes(
        p.chunk_data.len() as u64,
    ) + spec_enc_chunks(p.chunk_data) + spec_u64_to_le_bytes(p.pending_ticks.len() as u64)
        + spec_enc_ticks(p.pending_ticks)
}

/// The whole file: magic header, then payload.
pub open spec fn spec_file_bytes(p: PlotDataV) -> Seq<u8> {
    spec_magic() + spec_payload_bytes(p)
}

// ---------------------------------------------------------------------------
// Decoding, at the specification level. Each decoder consumes a prefix and
// returns the decoded value with the remaining suffix, or nothing.
// ---------------------------------------------------------------------------

pub open spec fn spec_dec_u32(b: Seq<u8>) -> Option<(u32, Seq<u8>)> {
    if b.len() >= 4 {
        Some((spec_u32_from_le_bytes(b.take(4)), b.skip(4)))
    } else {
        None
    }
}

pub open spec fn spec_dec_u64(b: Seq<u8>) -> Option<(u64, Seq<u8>)> {
    if b.len() >= 8 {
        Some((spec_u64_from_le_bytes(b.take(8)), b.skip(8)))
    } else {
        None
    }
}

pub open spec fn spec_dec_i32(b: Seq<u8>) -> Option<(i32, Seq<u8>)> {
    match spec_dec_u32(b) {
        Some((v, r)) => Some((v as i32, r)),
        None => None,
    }
}

/// Strict: any flag byte other than 0 or 1 is rejected.
pub open spec fn spec_dec_bool(b: Seq<u8>) -> Option<(bool, Seq<u8>)> {
    if b.len() >= 1 {
        if b[0] == 0u8 {
            Some((false, b.skip(1)))
        } else if b[0] == 1u8 {
            Some((true, b.skip(1)))
        } else {
            None
        }
    } else {
        None
    }
}

pub open spec fn spec_dec_bytes(b: Seq<u8>) -> Option<(Seq<u8>, Seq<u8>)> {
    match spec_dec_u64(b) {
        Some((n, r)) => if r.len() >= n {
            Some((r.take(n as int), r.skip(n as int)))
        } else {
            None
        },
        None => None,
    }
}

pub open spec fn spec_dec_chunk(b: Seq<u8>) -> Option<(ChunkDataV, Seq<u8>)> {
    match spec_dec_i32(b) {
        Some((x, b1)) => match spec_dec_i32(b1) {
            Some((z, b2)) => match spec_dec_bytes(b2) {
                Some((blocks, b3)) => Some((ChunkDataV { x, z, blocks }, b3)),
                None => None,
            },
            None => None,
        },
        None => None,
    }
}

pub open spec fn spec_dec_chunks(b: Seq<u8>, n: nat) -> Option<(Seq<ChunkDataV>, Seq<u8>)>
    decreases n,
{
    if n == 0 {
        Some((Seq::empty(), b))
    } else {
        match spec_dec_chunk(b) {
            Some((c, r)) => match spec_dec_chunks(r, (n - 1) as nat) {
                Some((s, r2)) => Some((seq![c] + s, r2)),
                None => None,
            },
            None => None,
        }
    }
}

pub open spec fn spec_dec_tick(b: Seq<u8>) -> Option<(TickEntry, Seq<u8>)> {
    match spec_dec_i32(b) {
        Some((x, b1)) => match spec_dec_i32(b1) {
            Some((y, b2)) => match spec_dec_i32(b2) {
                Some((z, b3)) => match spec_dec_u32(b3) {
                    Some((ticks_left, b4)) => match spec_dec_u32(b4) {
                        Some((priority, b5)) => Some(
                            (TickEntry { x, y, z, ticks_left, priority }, b5),
                        ),
                        None => None,
                    },
                    None => None,
                },
                None => None,
            },
            None => None,
        },
        None => None,
    }
}

pub open spec fn spec_dec_ticks(b: Seq<u8>, n: nat) -> Option<(Seq<TickEntry>, Seq<u8>)>
    decreases n,
{
    if n == 0 {
        Some((Seq::empty(), b))
    } else {
        match spec_dec_tick(b) {
            Some((t, r)) => match spec_dec_ticks(r, (n - 1) as nat) {
                Some((s, r2)) => Some((seq![t] + s, r2)),
                None => None,
            },
            None => None,
        }
    }
}

pub open spec fn spec_dec_plot(b: Seq<u8>) -> Option<(PlotDataV, Seq<u8>)> {
    match spec_dec_u32(b) {
        Some((tps, b1)) => match spec_dec_bool(b1) {
            Some((show_redstone, b2)) => match spec_dec_u64(b2) {
                Some((nc, b3)) => match spec_dec_chunks(b3, nc as nat) {
                    Some((chunk_data, b4)) => match spec_dec_u64(b4) {
                        Some((nt, b5)) => match spec_dec_ticks(b5, nt as nat) {
                            Some((pending_ticks, b6)) => Some(
                                (PlotDataV { tps, show_redstone, chunk_data, pending_ticks }, b6),
                            ),
                            None => None,
                        },
                        None => None,
                    },
                    None => None,
                },
                None => None,
            },
            None => None,
        },
        None => None,
    }
}

/// What loading a byte string yields: the header gate first (a distinct,
/// user-diagnosable rejection), then the payload decode, which must consume
/// every remaining byte.
pub open spec fn spec_load(bytes: Seq<u8>) -> Result<PlotDataV, LoadError> {
    if bytes.len() < 8 || bytes.take(8) != spec_magic() {
        Err(LoadError::BadHeader)
    } else {
        match spec_dec_plot(bytes.skip(8)) {
            Some((p, rest)) => if rest.len() == 0 {
                Ok(p)
            } else {
                Err(LoadError::CorruptPayload)
            },
            None => Err(LoadError::CorruptPayload),
        }
    }
}

// ---------------------------------------------------------------------------
// Round trip: decoding an encoding yields the encoded value, whatever
// follows it.
// ---------------------------------------------------------------------------

proof fn lemma_dec_enc_u32(v: u32, rest: Seq<u8>)
    ensures
        spec_dec_u32(spec_u32_to_le_bytes(v) + rest) == Some((v, rest)),
{
    lemma_auto_spec_u32_to_from_le_bytes();
    let b = spec_u32_to_le_bytes(v) + rest;
    assert(b.take(4) =~= spec_u32_to_le_bytes(v));
    assert(b.skip(4) =~= rest);
}

proof fn lemma_dec_enc_u64(v: u64, rest: Seq<u8>)
    ensures
        spec_dec_u64(spec_u64_to_le_bytes(v) + rest) == Some((v, rest)),
{
    lemma_auto_spec_u64_to_from_le_bytes();
    let b = spec_u64_to_le_bytes(v) + rest;
    assert(b.take(8) =~= spec_u64_to_le_bytes(v));
    assert(b.skip(8) =~= rest);
}

proof fn lemma_dec_enc_i32(v: i32, rest: Seq<u8>)
    ensures
        spec_dec_i32(spec_enc_i32(v) + rest) == Some((v, rest)),
{
    lemma_dec_enc_u32(v as u32, rest);
    assert((v as u32) as i32 == v) by (bit_vector);
}

proof fn lemma_dec_enc_bool(v: bool, rest: Seq<u8>)
    ensures
        spec_dec_bool(spec_enc_bool(v) + rest) == Some((v, rest)),
{
    let b = spec_enc_bool(v) + rest;
    assert(b[0] == if v {
        1u8
    } else {
        0u8
    });
    assert(b.skip(1) =~= rest);
}

proof fn lemma_dec_enc_bytes(s: Seq<u8>, rest: Seq<u8>)
    requires
        s.len() < 0x1_0000_0000_0000_0000,
    ensures
        spec_dec_bytes(spec_enc_bytes(s) + rest) == Some((s, rest)),
{
    let n = s.len() as u64;
    lemma_dec_enc_u64(n, s + rest);
    assert(spec_enc_bytes(s) + rest =~= spec_u64_to_le_bytes(n) + (s + rest));
    assert((s + rest).take(n as int) =~= s);
    assert((s + rest).skip(n as int) =~= rest);
}

proof fn lemma_dec_enc_chunk(c: ChunkDataV, rest: Seq<u8>)
    requires
        wf_chunk(c),
    ensures
        spec_dec_chunk(spec_enc_chunk(c) + rest) == Some((c, rest)),
{
    let tail2 = spec_enc_bytes(c.blocks) + rest;
    let tail1 = spec_enc_i32(c.z) + tail2;
    assert(spec_enc_chunk(c) + rest =~= spec_enc_i32(c.x) + tail1);
    lemma_dec_enc_i32(c.x, tail1);
    lemma_dec_enc_i32(c.z, tail2);
    lemma_dec_enc_bytes(c.blocks, rest);
    assert(ChunkDataV { x: c.x, z: c.z, blocks: c.blocks } =~= c);
}

proof fn lemma_dec_enc_chunks(s: Seq<ChunkDataV>, rest: Seq<u8>)
    requires
        forall|i: int| 0 <= i < s.len() ==> wf_chunk(#[trigger] s[i]),
    ensures
        spec_dec_chunks(spec_enc_chunks(s) + rest, s.len()) == Some((s, rest)),
    decreases s.len(),
{
    if s.len() == 0 {
        assert(spec_enc_chunks(s) + rest =~= rest);
        assert(Seq::<ChunkDataV>::empty() =~= s);
    } else {
        let tail = spec_enc_chunks(s.drop_first()) + rest;
        assert(spec_enc_chunks(s) + rest =~= spec_enc_chunk(s[0]) + tail);
        lemma_dec_enc_chunk(s[0], tail);
        lemma_dec_enc_chunks(s.drop_first(), rest);
        assert(seq![s[0]] + s.drop_first() =~= s);
    }
}

proof fn lemma_dec_enc_tick(t: TickEntry, rest: Seq<u8>)
    ensures
        spec_dec_tick(spec_enc_tick(t) + rest) == Some((t, rest)),
{
    let tail4 = spec_u32_to_le_bytes(t.priority) + rest;
    let tail3 = spec_u32_to_le_bytes(t.ticks_left) + tail4;
    let tail2 = spec_enc_i32(t.z) + tail3;
    let tail1 = spec_enc_i32(t.y) + tail2;
    assert(spec_enc_tick(t) + rest =~= spec_enc_i32(t.x) + tail1);
    lemma_dec_enc_i32(t.x, tail1);
    lemma_dec_enc_i32(t.y, tail2);
    lemma_dec_enc_i32(t.z, tail3);
    lemma_dec_enc_u32(t.ticks_left, tail4);
    lemma_dec_enc_u32(t.priority, rest);
}

proof fn lemma_dec_enc_ticks(s: Seq<TickEntry>, rest: Seq<u8>)
    ensures
        spec_dec_ticks(spec_enc_ticks(s) + rest, s.len()) == Some((s, rest)),
    decreases s.len(),
{
    if s.len() == 0 {
        assert(spec_enc_ticks(s) + rest =~= rest);
        assert(Seq::<TickEntry>::empty() =~= s);
    } else {
        let tail = spec_enc_ticks(s.drop_first()) + rest;
        assert(spec_enc_ticks(s) + rest =~= spec_enc_tick(s[0]) + tail);
        lemma_dec_enc_tick(s[0], tail);
        lemma_dec_enc_ticks(s.drop_first(), rest);
        assert(seq![s[0]] + s.drop_first() =~= s);
    }
}

/// Round-trip law: for every well-formed snapshot image, loading the bytes
/// that saving produces yields exactly that image — same raw tick rate, same
/// flag, same chunk sequence, same pending-tick sequence.
pub proof fn lemma_load_of_save(p: PlotDataV)
    requires
        wf_plot(p),
    ensures
        spec_load(spec_file_bytes(p)) == Ok::<PlotDataV, LoadError>(p),
{
    let bytes = spec_file_bytes(p);
    let payload = spec_payload_bytes(p);
    assert(bytes.len() >= 8);
    assert(bytes.take(8) =~= spec_magic());
    assert(bytes.skip(8) =~= payload);
    let nc = p.chunk_data.len() as u64;
    let nt = p.pending_ticks.len() as u64;
    let tail5 = spec_enc_ticks(p.pending_ticks);
    let tail4 = spec_u64_to_le_bytes(nt) + tail5;
    let tail3 = spec_enc_chunks(p.chunk_data) + tail4;
    let tail2 = spec_u64_to_le_bytes(nc) + tail3;
    let tail1 = spec_enc_bool(p.show_redstone) + tail2;
    assert(payload =~= spec_u32_to_le_bytes(p.tps) + tail1);
    lemma_dec_enc_u32(p.tps, tail1);
    lemma_dec_enc_bool(p.show_redstone, tail2);
    lemma_dec_enc_u64(nc, tail3);
    assert(spec_enc_chunks(p.chunk_data) + tail4 =~= tail3);
    lemma_dec_enc_chunks(p.chunk_data, tail4);
    lemma_dec_enc_u64(nt, tail5);
    assert(spec_enc_ticks(p.pending_ticks) + Seq::<u8>::empty() =~= tail5);
    lemma_dec_enc_ticks(p.pending_ticks, Seq::<u8>::empty());
    assert(PlotDataV {
        tps: p.tps,
        show_redstone: p.show_redstone,
        chunk_data: p.chunk_data,
        pending_ticks: p.pending_ticks,
    } =~= p);
}

// ---------------------------------------------------------------------------
// The executable decoder. Each reader mirrors its specification decoder,
// tracking its position in the input as an index.
// ---------------------------------------------------------------------------

fn read_u32(bytes: &[u8], start: usize) -> (r: Option<(u32, usize)>)
    requires
        start <= bytes@.len(),
    ensures
        match r {
            Some((v, end)) => start <= end <= bytes@.len() && spec_dec_u32(
                bytes@.skip(start as int),
            ) == Some((v, bytes@.skip(end as int))),
            None => spec_dec_u32(bytes@.skip(start as int)) is None,
        },
{
    if bytes.len() - start >= 4 {
        let sub = slice_subrange(bytes, start, start + 4);
        let v = u32_from_le_bytes(sub);
        proof {
            assert(bytes@.skip(start as int).take(4) =~= sub@);
            assert(bytes@.skip(start as int).skip(4) =~= bytes@.skip(start as int + 4));
        }
        Some((v, start + 4))
    } else {
        None
    }
}

fn read_u64(bytes: &[u8], start: usize) -> (r: Option<(u64, usize)>)
    requires
        start <= bytes@.len(),
    ensures
        match r {
            Some((v, end)) => start <= end <= bytes@.len() && spec_dec_u64(
                bytes@.skip(start as int),
            ) == Some((v, bytes@.skip(end as int))),
            None => spec_dec_u64(bytes@.skip(start as int)) is None,
        },
{
    if bytes.len() - start >= 8 {
        let sub = slice_subrange(bytes, start, start + 8);
        let v = u64_from_le_bytes(sub);
        proof {
            assert(bytes@.skip(start as int).take(8) =~= sub@);
            assert(bytes@.skip(start as int).skip(8) =~= bytes@.skip(start as int + 8));
        }
        Some((v, start + 8))
    } else {
        None
    }
}

fn read_i32(bytes: &[u8], start: usize) -> (r: Option<(i32, usize)>)
    requires
        start <= bytes@.len(),
    ensures
        match r {
            Some((v, end)) => start <= end <= bytes@.len() && spec_dec_i32(
                bytes@.skip(start as int),
            ) == Some((v, bytes@.skip(end as int))),
            None => spec_dec_i32(bytes@.skip(start as int)) is None,
        },
{
    match read_u32(bytes, start) {
        Some((v, end)) => Some((v as i32, end)),
        None => None,
    }
}

fn read_bool(bytes: &[u8], start: usize) -> (r: Option<(bool, usize)>)
    requires
        start <= bytes@.len(),
    ensures
        match r {
            Some((v, end)) => start <= end <= bytes@.len() && spec_dec_bool(
                bytes@.skip(start as int),
            ) == Some((v, bytes@.skip(end as int))),
            None => spec_dec_bool(bytes@.skip(start as int)) is None,
        },
{
    if bytes.len() - start >= 1 {
        let b = bytes[start];
        proof {
            assert(bytes@.skip(start as int)[0] == bytes@[start as int]);
            assert(bytes@.skip(start as int).skip(1) =~= bytes@.skip(start as int + 1));
        }
        if b == 0 {
            Some((false, start + 1))
        } else if b == 1 {
            Some((true, start + 1))
        } else {
            None
        }
    } else {
        None
    }
}

fn read_bytes(bytes: &[u8], start: usize) -> (r: Option<(Vec<u8>, usize)>)
    requires
        start <= bytes@.len(),
    ensures
        match r {
            Some((v, end)) => start <= end <= bytes@.len() && spec_dec_bytes(
                bytes@.skip(start as int),
            ) == Some((v@, bytes@.skip(end as int))),
            None => spec_dec_bytes(bytes@.skip(start as int)) is None,
        },
{
    match read_u64(bytes, start) {
        Some((n, mid)) => {
            if n <= (bytes.len() - mid) as u64 {
                let end = mid + (n as usize);
                let sub = slice_subrange(bytes, mid, end);
                let v = slice_to_vec(sub);
                proof {
                    assert(bytes@.skip(mid as int).take(n as int) =~= sub@);
                    assert(bytes@.skip(mid as int).skip(n as int) =~= bytes@.skip(end as int));
                }
                Some((v, end))
            } else {
                proof {
                    assert(bytes@.skip(mid as int).len() < n);
                }
                None
            }
        },
        None => None,
    }
}

fn read_chunk(bytes: &[u8], start: usize) -> (r: Option<(ChunkData, usize)>)
    requires
        start <= bytes@.len(),
    ensures
        match r {
            Some((c, end)) => start <= end <= bytes@.len() && spec_dec_chunk(
                bytes@.skip(start as int),
            ) == Some((c@, bytes@.skip(end as int))),
            None => spec_dec_chunk(bytes@.skip(start as int)) is None,
        },
{
    match read_i32(bytes, start) {
        Some((x, p1)) => match read_i32(bytes, p1) {
            Some((z, p2)) => match read_bytes(bytes, p2) {
                Some((blocks, end)) => Some((ChunkData { x, z, blocks }, end)),
                None => None,
            },
            None => None,
        },
        None => None,
    }
}

fn read_chunks(bytes: &[u8], start: usize, n: u64) -> (r: Option<(Vec<ChunkData>, usize)>)
    requires
        start <= bytes@.len(),
    ensures
        match r {
            Some((cs, end)) => start <= end <= bytes@.len() && spec_dec_chunks(
                bytes@.skip(start as int),
                n as nat,
            ) == Some((cs@.map_values(|c: ChunkData| c@), bytes@.skip(end as int))),
            None => spec_dec_chunks(bytes@.skip(start as int), n as nat) is None,
        },
    decreases n,
{
    if n == 0 {
        let cs: Vec<ChunkData> = Vec::new();
        proof {
            assert(cs@.map_values(|c: ChunkData| c@) =~= Seq::<ChunkDataV>::empty());
        }
        Some((cs, start))
    } else {
        match read_chunk(bytes, start) {
            Some((c, mid)) => match read_chunks(bytes, mid, n - 1) {
                Some((mut cs, end)) => {
                    let ghost old_cs = cs@;
                    cs.insert(0, c);
                    proof {
                        assert(cs@.map_values(|c: ChunkData| c@) =~= seq![c@] + old_cs.map_values(
                            |c: ChunkData| c@,
                        ));
                    }
                    Some((cs, end))
                },
                None => None,
            },
            None => None,
        }
    }
}

fn read_tick(bytes: &[u8], start: usize) -> (r: Option<(TickEntry, usize)>)
    requires
        start <= bytes@.len(),
    ensures
        match r {
            Some((t, end)) => start <= end <= bytes@.len() && spec_dec_tick(
                bytes@.skip(start as int),
            ) == Some((t, bytes@.skip(end as int))),
            None => spec_dec_tick(bytes@.skip(start as int)) is None,
        },
{
    match read_i32(bytes, start) {
        Some((x, p1)) => match read_i32(bytes, p1) {
            Some((y, p2)) => match read_i32(bytes, p2) {
                Some((z, p3)) => match read_u32(bytes, p3) {
                    Some((ticks_left, p4)) => match read_u32(bytes, p4) {
                        Some((priority, end)) => Some(
                            (TickEntry { x, y, z, ticks_left, priority }, end),
                        ),
                        None => None,
                    },
                    None => None,
                },
                None => None,
            },
            None => None,
        },
        None => None,
    }
}

fn read_ticks(bytes: &[u8], start: usize, n: u64) -> (r: Option<(Vec<TickEntry>, usize)>)
    requires
        start <= bytes@.len(),
    ensures
        match r {
            Some((ts, end)) => start <= end <= bytes@.len() && spec_dec_ticks(
                bytes@.skip(start as int),
                n as nat,
            ) == Some((ts@, bytes@.skip(end as int))),
            None => spec_dec_ticks(bytes@.skip(start as int), n as nat) is None,
        },
    decreases n,
{
    if n == 0 {
        let ts: Vec<TickEntry> = Vec::new();
        proof {
            assert(ts@ =~= Seq::<TickEntry>::empty());
        }
        Some((ts, start))
    } else {
        match read_tick(bytes, start) {
            Some((t, mid)) => match read_ticks(bytes, mid, n - 1) {
                Some((mut ts, end)) => {
                    let ghost old_ts = ts@;
                    ts.insert(0, t);
                    proof {
                        assert(ts@ =~= seq![t] + old_ts);
                    }
                    Some((ts, end))
                },
                None => None,
            },
            None => None,
        }
    }
}

fn read_payload(bytes: &[u8], start: usize) -> (r: Option<(PlotData, usize)>)
    requires
        start <= bytes@.len(),
    ensures
        match r {
            Some((p, end)) => start <= end <= bytes@.len() && spec_dec_plot(
                bytes@.skip(start as int),
            ) == Some((p@, bytes@.skip(end as int))),
            None => spec_dec_plot(bytes@.skip(start as int)) is None,
        },
{
    match read_u32(bytes, start) {
        Some((tps, p1)) => match read_bool(bytes, p1) {
            Some((show_redstone, p2)) => match read_u64(bytes, p2) {
                Some((nc, p3)) => match read_chunks(bytes, p3, nc) {
                    Some((chunk_data, p4)) => match read_u64(bytes, p4) {
                        Some((nt, p5)) => match read_ticks(bytes, p5, nt) {
                            Some((pending_ticks, end)) => Some(
                                (PlotData { tps, show_redstone, chunk_data, pending_ticks }, end),
                            ),
                            None => None,
                        },
                        None => None,
                    },
                    None => None,
                },
                None => None,
            },
            None => None,
        },
        None => None,
    }
}

// ---------------------------------------------------------------------------
// The executable encoder. Each writer appends exactly the bytes its
// specification encoder describes.
// ---------------------------------------------------------------------------

fn write_u32(out: &mut Vec<u8>, v: u32)
    ensures
        final(out)@ == old(out)@ + spec_u32_to_le_bytes(v),
{
    let mut b = u32_to_le_bytes(v);
    out.append(&mut b);
}

fn write_u64(out: &mut Vec<u8>, v: u64)
    ensures
        final(out)@ == old(out)@ + spec_u64_to_le_bytes(v),
{
    let mut b = u64_to_le_bytes(v);
    out.append(&mut b);
}

fn write_i32(out: &mut Vec<u8>, v: i32)
    ensures
        final(out)@ == old(out)@ + spec_enc_i32(v),
{
    write_u32(out, v as u32);
}

fn write_bool(out: &mut Vec<u8>, v: bool)
    ensures
        final(out)@ == old(out)@ + spec_enc_bool(v),
{
    if v {
        out.push(1);
    } else {
        out.push(0);
    }
    assert(out@ =~= old(out)@ + spec_enc_bool(v));
}

fn write_bytes(out: &mut Vec<u8>, s: &Vec<u8>)
    ensures
        final(out)@ == old(out)@ + spec_enc_bytes(s@),
        s@.len() <= usize::MAX,
{
    write_u64(out, s.len() as u64);
    out.extend_from_slice(s.as_slice());
    assert(out@ =~= old(out)@ + spec_enc_bytes(s@));
}

fn write_chunk(out: &mut Vec<u8>, c: &ChunkData)
    ensures
        final(out)@ == old(out)@ + spec_enc_chunk(c@),
        wf_chunk(c@),
{
    write_i32(out, c.x);
    write_i32(out, c.z);
    write_bytes(out, &c.blocks);
    assert(out@ =~= old(out)@ + spec_enc_chunk(c@));
}

fn write_chunks(out: &mut Vec<u8>, cs: &Vec<ChunkData>, i: usize)
    requires
        i <= cs@.len(),
    ensures
        final(out)@ == old(out)@ + spec_enc_chunks(cs@.map_values(|c: ChunkData| c@).skip(i as int)),
        forall|j: int| i <= j < cs@.len() ==> wf_chunk((#[trigger] cs@[j])@),
    decreases cs@.len() - i,
{
    let ghost m = cs@.map_values(|c: ChunkData| c@);
    if i < cs.len() {
        write_chunk(out, &cs[i]);
        write_chunks(out, cs, i + 1);
        proof {
            assert(m.skip(i as int)[0] == m[i as int]);
            assert(m.skip(i as int).drop_first() =~= m.skip(i as int + 1));
            assert(out@ =~= old(out)@ + spec_enc_chunks(m.skip(i as int)));
        }
    } else {
        assert(m.skip(i as int) =~= Seq::<ChunkDataV>::empty());
        assert(out@ =~= old(out)@ + spec_enc_chunks(m.skip(i as int)));
    }
}

fn write_tick(out: &mut Vec<u8>, t: &TickEntry)
    ensures
        final(out)@ == old(out)@ + spec_enc_tick(*t),
{
    write_i32(out, t.x);
    write_i32(out, t.y);
    write_i32(out, t.z);
    write_u32(out, t.ticks_left);
    write_u32(out, t.priority);
    assert(out@ =~= old(out)@ + spec_enc_tick(*t));
}

fn write_ticks(out: &mut Vec<u8>, ts: &Vec<TickEntry>, i: usize)
    requires
        i <= ts@.len(),
    ensures
        final(out)@ == old(out)@ + spec_enc_ticks(ts@.skip(i as int)),
    decreases ts@.len() - i,
{
    if i < ts.len() {
        let t = ts[i];
        write_tick(out, &t);
        write_ticks(out, ts, i + 1);
        proof {
            assert(ts@.skip(i as int)[0] == ts@[i as int]);
            assert(ts@.skip(i as int).drop_first() =~= ts@.skip(i as int + 1));
            assert(out@ =~= old(out)@ + spec_enc_ticks(ts@.skip(i as int)));
        }
    } else {
        assert(ts@.skip(i as int) =~= Seq::<TickEntry>::empty());
        assert(out@ =~= old(out)@ + spec_enc_ticks(ts@.skip(i as int)));
    }
}

impl PlotData {
    /// Serializes this snapshot into the fixed file layout: the magic
    /// header, then the payload. The result is pinned byte for byte.
    pub fn to_bytes(&self) -> (out: Vec<u8>)
        ensures
            out@ == spec_file_bytes(self@),
            wf_plot(self@),
    {
        let mut out: Vec<u8> = Vec::new();
        out.push(0x86);
        out.push(0x4D);
        out.push(0x43);
        out.push(0x48);
        out.push(0x50);
        out.push(0x52);
        out.push(0x53);
        out.push(0x00);
        assert(out@ =~= spec_magic());
        write_u32(&mut out, self.tps);
        write_bool(&mut out, self.show_redstone);
        write_u64(&mut out, self.chunk_data.len() as u64);
        write_chunks(&mut out, &self.chunk_data, 0);
        write_u64(&mut out, self.pending_ticks.len() as u64);
        write_ticks(&mut out, &self.pending_ticks, 0);
        proof {
            let m = self.chunk_data@.map_values(|c: ChunkData| c@);
            assert(m.skip(0) =~= m);
            assert(self.pending_ticks@.skip(0) =~= self.pending_ticks@);
            assert(out@ =~= spec_file_bytes(self@));
        }
        out
    }

    /// Deserializes a plot file. The result mirrors `spec_load` exactly:
    /// a header mismatch (including a too-short input) is `BadHeader` and
    /// the payload is never touched; a payload that is truncated, invalid,
    /// or followed by trailing bytes is `CorruptPayload`; otherwise the
    /// decoded snapshot is returned.
    pub fn from_bytes(bytes: &[u8]) -> (r: Result<PlotData, LoadError>)
        ensures
            (match r {
                Ok(p) => spec_load(bytes@) == Ok::<PlotDataV, LoadError>(p@),
                Err(e) => spec_load(bytes@) == Err::<PlotDataV, LoadError>(e),
            }),
    {
        if bytes.len() < 8 {
            return Err(LoadError::BadHeader);
        }
        let m = bytes[0] == 0x86 && bytes[1] == 0x4D && bytes[2] == 0x43 && bytes[3] == 0x48
            && bytes[4] == 0x50 && bytes[5] == 0x52 && bytes[6] == 0x53 && bytes[7] == 0x00;
        proof {
            assert forall|k: int| 0 <= k < 8 implies bytes@.take(8)[k] == bytes@[k] by {}
        }
        if !m {
            proof {
                assert(bytes@.take(8) != spec_magic());
            }
            return Err(LoadError::BadHeader);
        }
        assert(bytes@.take(8) =~= spec_magic());
        match read_payload(bytes, 8) {
            Some((p, end)) => {
                if end == bytes.len() {
                    proof {
                        assert(bytes@.skip(end as int).len() == 0);
                    }
                    Ok(p)
                } else {
                    proof {
                        assert(bytes@.skip(end as int).len() > 0);
                    }
                    Err(LoadError::CorruptPayload)
                }
            },
            None => Err(LoadError::CorruptPayload),
        }
    }
}

} // verus!
