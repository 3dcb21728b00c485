use stegegg::grid::{locate_spot, Grid, HidingSpot, CHANNELS};

#[test]
fn locate_spot_walks_channels_then_columns_then_rows() {
    assert_eq!(CHANNELS, 3);
    assert_eq!(locate_spot(0, 10), HidingSpot { x: 0, y: 0, channel: 0 });
    assert_eq!(locate_spot(1, 10), HidingSpot { x: 0, y: 0, channel: 1 });
    assert_eq!(locate_spot(2, 10), HidingSpot { x: 0, y: 0, channel: 2 });
    assert_eq!(locate_spot(3, 10), HidingSpot { x: 1, y: 0, channel: 0 });
    assert_eq!(locate_spot(29, 10), HidingSpot { x: 9, y: 0, channel: 2 });
    assert_eq!(locate_spot(30, 10), HidingSpot { x: 0, y: 1, channel: 0 });
    assert_eq!(locate_spot(299, 10), HidingSpot { x: 9, y: 9, channel: 2 });
    assert_eq!(locate_spot(145, 10), HidingSpot { x: 8, y: 4, channel: 1 });
    assert_eq!(locate_spot(7, 1), HidingSpot { x: 0, y: 2, channel: 1 });
}

#[test]
fn grid_new_wants_three_bytes_per_pixel() {
    assert!(Grid::new(2, 2, vec![0u8; 12]).is_some());
    assert!(Grid::new(2, 2, vec![0u8; 11]).is_none());
    assert!(Grid::new(2, 2, vec![0u8; 13]).is_none());
    assert!(Grid::new(0, 0, Vec::new()).is_some());
    assert!(Grid::new(0, 5, Vec::new()).is_some());
    assert!(Grid::new(0, 5, vec![0u8; 15]).is_none());
}

#[test]
fn grid_new_refuses_more_spots_than_thirty_two_bits_count() {
    assert!(Grid::new(u32::MAX, u32::MAX, Vec::new()).is_none());
    assert!(Grid::new(0x8000_0000, 1, Vec::new()).is_none());
    assert!(Grid::new(0x5555_5556, 1, vec![0u8; 2]).is_none());
}

#[test]
fn grid_gives_back_what_it_was_made_from() {
    let bytes: Vec<u8> = (0..24u8).collect();
    let g = Grid::new(4, 2, bytes.clone()).unwrap();
    assert_eq!(g.width(), 4);
    assert_eq!(g.height(), 2);
    assert_eq!(g.hiding_spots(), 24);
    assert_eq!(g.as_bytes(), &bytes);
    assert_eq!(g.clone().into_bytes(), bytes);
}

#[test]
fn grid_channel_reads_row_by_row() {
    let bytes: Vec<u8> = (0..24u8).collect();
    let g = Grid::new(4, 2, bytes).unwrap();
    assert_eq!(g.channel(HidingSpot { x: 0, y: 0, channel: 0 }), 0);
    assert_eq!(g.channel(HidingSpot { x: 3, y: 0, channel: 2 }), 11);
    assert_eq!(g.channel(HidingSpot { x: 0, y: 1, channel: 0 }), 12);
    assert_eq!(g.channel(HidingSpot { x: 2, y: 1, channel: 1 }), 19);
    for i in 0..24u32 {
        assert_eq!(g.channel(locate_spot(i, 4)), i as u8);
    }
}

#[test]
fn grid_set_channel_writes_one_byte() {
    let bytes: Vec<u8> = (0..24u8).collect();
    let mut g = Grid::new(4, 2, bytes.clone()).unwrap();
    g.set_channel(HidingSpot { x: 2, y: 1, channel: 1 }, 0xee);
    let mut expected = bytes;
    expected[19] = 0xee;
    assert_eq!(g.as_bytes(), &expected);
    assert_eq!(g.width(), 4);
    assert_eq!(g.height(), 2);
}
