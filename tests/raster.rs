use ray_tracer::raster::{get_index, get_sample_index, Buffer, BufferIds};

#[test]
fn buffer_ids_count_up_across_kinds() {
    let mut ids = BufferIds::new();
    let p = ids.next_position();
    let i = ids.next_indices();
    let c = ids.next_colors();
    assert_eq!((p.id(), i.id(), c.id()), (0, 1, 2));
    assert_eq!(ids.get_next_id(), 3);
}

#[test]
fn clear_targets() {
    assert!(Buffer::Color.clears_color() && !Buffer::Color.clears_depth());
    assert!(!Buffer::Depth.clears_color() && Buffer::Depth.clears_depth());
    assert!(Buffer::Both.clears_color() && Buffer::Both.clears_depth());
}

#[test]
fn screen_index_counts_rows_from_the_bottom() {
    assert_eq!(get_index(700, 700, 0, 699), 0);
    assert_eq!(get_index(700, 700, 0, 0), 699 * 700);
    assert_eq!(get_index(4, 5, 2, 1), 2 * 5 + 2);
    assert_eq!(get_sample_index(4, 5, 2, 1), 4 * 12);
}
