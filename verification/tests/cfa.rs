use demosaic::{Color, Metadata, Pattern, CFA};

#[test]
fn color_at_rggb() {
    // Testing initial pattern
    assert_eq!(CFA::RGGB.color_at(0, 0), Color::Red);
    assert_eq!(CFA::RGGB.color_at(1, 0), Color::Green);
    assert_eq!(CFA::RGGB.color_at(0, 1), Color::Green);
    assert_eq!(CFA::RGGB.color_at(1, 1), Color::Blue);

    // Testing expanded pattern
    assert_eq!(CFA::RGGB.color_at(2, 2), Color::Red);
    assert_eq!(CFA::RGGB.color_at(3, 2), Color::Green);
    assert_eq!(CFA::RGGB.color_at(2, 3), Color::Green);
    assert_eq!(CFA::RGGB.color_at(3, 3), Color::Blue);
}

#[test]
fn color_at_covers_the_first_four_by_four() {
    let table = [
        [Color::Red, Color::Green, Color::Red, Color::Green],
        [Color::Green, Color::Blue, Color::Green, Color::Blue],
        [Color::Red, Color::Green, Color::Red, Color::Green],
        [Color::Green, Color::Blue, Color::Green, Color::Blue],
    ];
    for y in 0..4u32 {
        for x in 0..4u32 {
            assert_eq!(CFA::RGGB.color_at(x, y), table[y as usize][x as usize]);
        }
    }
}

#[test]
fn color_at_repeats_with_period_two() {
    for y in 0..9u32 {
        for x in 0..9u32 {
            let c = CFA::RGGB.color_at(x, y);
            assert_eq!(CFA::RGGB.color_at(x + 2, y), c);
            assert_eq!(CFA::RGGB.color_at(x, y + 2), c);
            assert_eq!(CFA::RGGB.color_at(x % 2, y % 2), c);
        }
    }
    assert_eq!(CFA::RGGB.color_at(u32::MAX, u32::MAX), Color::Blue);
    assert_eq!(CFA::RGGB.color_at(u32::MAX - 1, u32::MAX), Color::Green);
}

#[test]
fn color_offsets_and_names() {
    assert_eq!(Color::Red.index(), 0);
    assert_eq!(Color::Green.index(), 1);
    assert_eq!(Color::Blue.index(), 2);
    assert_eq!(usize::from(Color::Red), 0);
    assert_eq!(usize::from(Color::Green), 1);
    assert_eq!(usize::from(Color::Blue), 2);
    assert_eq!(Color::Red.name(), "red");
    assert_eq!(Color::Green.name(), "green");
    assert_eq!(Color::Blue.name(), "blue");
}

#[test]
fn pattern_colors_by_index_and_by_coordinates() {
    let pattern = Pattern::new(CFA::RGGB, 3, 2);
    assert_eq!(pattern.width, 3);
    assert_eq!(pattern.height, 2);
    // Row 0: R G R, row 1: G B G.
    let expected = [
        Color::Red,
        Color::Green,
        Color::Red,
        Color::Green,
        Color::Blue,
        Color::Green,
    ];
    for i in 0..6u32 {
        assert_eq!(pattern.color_at(i), expected[i as usize]);
        assert_eq!(pattern.color_at_xy(i % 3, i / 3), expected[i as usize]);
    }
}

#[test]
fn metadata_addresses_pixels_row_by_row() {
    let meta = Metadata::new(5, 3, CFA::RGGB);
    assert_eq!(meta.width, 5);
    assert_eq!(meta.height, 3);
    assert_eq!(meta.bit_depth, 12);
    assert_eq!(meta.pixels(), 15);
    assert_eq!(meta.rgb_len(), 45);
    assert_eq!(meta.xytoi(0, 0), 0);
    assert_eq!(meta.xytoi(4, 0), 4);
    assert_eq!(meta.xytoi(0, 1), 5);
    assert_eq!(meta.xytoi(3, 2), 13);
    // The conversion does not hold the coordinates against the size.
    assert_eq!(meta.xytoi(7, 4), 27);
    assert_eq!(meta.itoxy(0), (0, 0));
    assert_eq!(meta.itoxy(4), (4, 0));
    assert_eq!(meta.itoxy(5), (0, 1));
    assert_eq!(meta.itoxy(13), (3, 2));
    for i in 0..15usize {
        let (x, y) = meta.itoxy(i);
        assert_eq!(meta.xytoi(x, y), i);
        assert_eq!(meta.color_at_index(i), meta.color_at_xy(x, y));
        assert_eq!(meta.color_at_index(i), CFA::RGGB.color_at(x, y));
    }
    assert_eq!(meta.color_at_index(6), Color::Blue);
}

#[test]
fn metadata_knows_which_coordinates_are_pixels() {
    let meta = Metadata::new(5, 3, CFA::RGGB);
    assert!(meta.are_coords_valid(0, 0));
    assert!(meta.are_coords_valid(4, 2));
    assert!(!meta.are_coords_valid(5, 2));
    assert!(!meta.are_coords_valid(4, 3));
    assert!(!meta.are_coords_valid(u32::MAX, 0));
}

#[test]
fn metadata_depth_max_is_all_bits_set() {
    let mut meta = Metadata::new(1, 1, CFA::RGGB);
    assert_eq!(meta.depth_max(), 4095);
    meta.bit_depth = 0;
    assert_eq!(meta.depth_max(), 0);
    meta.bit_depth = 1;
    assert_eq!(meta.depth_max(), 1);
    meta.bit_depth = 8;
    assert_eq!(meta.depth_max(), 255);
    meta.bit_depth = 16;
    assert_eq!(meta.depth_max(), 65535);
}
