use plotstore::snapshot::{PlotData, DEFAULT_WORLD_HEIGHT, PLOT_WIDTH};

#[test]
fn template_grid_shape() {
    let p = PlotData::default_template();
    let w = PLOT_WIDTH as usize;
    assert_eq!(p.chunk_data.len(), w * w);
    // every (x, z) pair of the grid appears exactly once, in row-major order
    for x in 0..PLOT_WIDTH {
        for z in 0..PLOT_WIDTH {
            let c = &p.chunk_data[(x * PLOT_WIDTH + z) as usize];
            assert_eq!((c.x, c.z), (x, z));
            assert_eq!(c.blocks, vec![0u8; DEFAULT_WORLD_HEIGHT as usize]);
        }
    }
}

#[test]
fn template_fields() {
    let p = PlotData::default_template();
    assert_eq!(p.tps, 10);
    assert!(p.show_redstone);
    assert!(p.pending_ticks.is_empty());
}

#[test]
fn template_deterministic() {
    // every construction yields the same snapshot, bit for bit
    let a = PlotData::default_template();
    let b = PlotData::default();
    assert_eq!(a, b);
    assert_eq!(a.to_bytes(), b.to_bytes());
}

#[test]
fn template_round_trip() {
    let p = PlotData::default_template();
    let q = PlotData::from_bytes(&p.to_bytes()).unwrap();
    assert_eq!(p, q);
}
