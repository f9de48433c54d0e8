use ray_tracer::tiles::{tile_rows, ConcurrencyGate};

#[test]
fn tiles_split_rows_evenly_with_remainder_last() {
    assert_eq!(tile_rows(225, 200, 0), (0, 1));
    assert_eq!(tile_rows(225, 200, 198), (198, 199));
    assert_eq!(tile_rows(225, 200, 199), (199, 225));
    assert_eq!(tile_rows(10, 3, 0), (0, 3));
    assert_eq!(tile_rows(10, 3, 1), (3, 6));
    assert_eq!(tile_rows(10, 3, 2), (6, 10));
}

#[test]
fn tiles_cover_every_row_once() {
    for &(height, tiles) in &[(20u32, 200usize), (225, 200), (10, 3), (0, 4), (7, 7), (1000, 16)] {
        let mut seen = vec![0u32; height as usize];
        let mut expected_start = 0usize;
        for id in 0..tiles {
            let (start, end) = tile_rows(height, tiles, id);
            assert_eq!(start, expected_start);
            assert!(start <= end);
            for row in start..end {
                seen[row] += 1;
            }
            expected_start = end;
        }
        assert_eq!(expected_start, height as usize);
        assert!(seen.iter().all(|&c| c == 1));
    }
}

#[test]
fn tiles_fewer_rows_than_tiles_go_to_last() {
    assert_eq!(tile_rows(20, 200, 0), (0, 0));
    assert_eq!(tile_rows(20, 200, 199), (0, 20));
}

#[test]
fn gate_admits_up_to_limit() {
    let mut gate = ConcurrencyGate::new(2);
    assert!(gate.can_start());
    assert!(gate.try_start());
    assert!(gate.try_start());
    assert_eq!(gate.outstanding(), 2);
    assert!(!gate.can_start());
    assert!(!gate.try_start());
    assert_eq!(gate.outstanding(), 2);
    gate.finish();
    assert_eq!(gate.outstanding(), 1);
    assert!(gate.can_start());
    assert!(gate.try_start());
    assert_eq!(gate.outstanding(), 2);
}
