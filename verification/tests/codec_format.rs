use plotstore::codec::LoadError;
use plotstore::snapshot::{ChunkData, PlotData, TickEntry};

const MAGIC: [u8; 8] = [0x86, 0x4D, 0x43, 0x48, 0x50, 0x52, 0x53, 0x00];

fn sample_snapshot() -> PlotData {
    PlotData {
        tps: 42,
        show_redstone: false,
        chunk_data: vec![
            ChunkData {
                x: 0,
                z: 0,
                blocks: vec![],
            },
            ChunkData {
                x: -3,
                z: 7,
                blocks: vec![1, 2, 3, 255],
            },
        ],
        pending_ticks: vec![
            TickEntry {
                x: 1,
                y: -64,
                z: 2,
                ticks_left: 5,
                priority: 0,
            },
            TickEntry {
                x: -1,
                y: 0,
                z: -2,
                ticks_left: 0,
                priority: 3,
            },
        ],
    }
}

#[test]
fn round_trip_full_snapshot() {
    let p = sample_snapshot();
    let bytes = p.to_bytes();
    let q = PlotData::from_bytes(&bytes).unwrap();
    assert_eq!(p, q);
}

#[test]
fn round_trip_empty_sequences() {
    let p = PlotData {
        tps: 0xFFFF_FFFF,
        show_redstone: true,
        chunk_data: vec![],
        pending_ticks: vec![],
    };
    let bytes = p.to_bytes();
    let q = PlotData::from_bytes(&bytes).unwrap();
    assert_eq!(p, q);
}

#[test]
fn file_layout_starts_with_magic() {
    let bytes = sample_snapshot().to_bytes();
    assert_eq!(&bytes[..8], &MAGIC);
    // raw tick rate, little-endian, directly after the header
    assert_eq!(&bytes[8..12], &42u32.to_le_bytes());
    // then the redstone flag byte
    assert_eq!(bytes[12], 0);
}

#[test]
fn header_rejects_empty_file() {
    assert_eq!(PlotData::from_bytes(&[]), Err(LoadError::BadHeader));
}

#[test]
fn header_rejects_arbitrary_bytes() {
    assert_eq!(
        PlotData::from_bytes(b"this is not a plot file"),
        Err(LoadError::BadHeader)
    );
}

#[test]
fn header_rejects_near_miss() {
    let mut bytes = sample_snapshot().to_bytes();
    bytes[7] = 1;
    assert_eq!(PlotData::from_bytes(&bytes), Err(LoadError::BadHeader));
}

#[test]
fn corrupt_magic_only() {
    assert_eq!(
        PlotData::from_bytes(&MAGIC),
        Err(LoadError::CorruptPayload)
    );
}

#[test]
fn corrupt_truncated_payload() {
    let mut bytes = sample_snapshot().to_bytes();
    bytes.truncate(bytes.len() - 1);
    assert_eq!(PlotData::from_bytes(&bytes), Err(LoadError::CorruptPayload));
}

#[test]
fn corrupt_garbage_payload() {
    let mut bytes = MAGIC.to_vec();
    bytes.extend_from_slice(&[0xFF, 0xFF, 0xFF, 0xFF, 0xFF, 0xFF, 0xFF]);
    assert_eq!(PlotData::from_bytes(&bytes), Err(LoadError::CorruptPayload));
}

#[test]
fn corrupt_trailing_garbage() {
    let mut bytes = sample_snapshot().to_bytes();
    bytes.push(0);
    assert_eq!(PlotData::from_bytes(&bytes), Err(LoadError::CorruptPayload));
}

#[test]
fn corrupt_overlong_count() {
    // magic, tps, flag, then a chunk count far past the end of the input
    let mut bytes = MAGIC.to_vec();
    bytes.extend_from_slice(&7u32.to_le_bytes());
    bytes.push(1);
    bytes.extend_from_slice(&u64::MAX.to_le_bytes());
    assert_eq!(PlotData::from_bytes(&bytes), Err(LoadError::CorruptPayload));
}
