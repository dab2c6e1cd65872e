use demosaic::bilinear::Bilinear;
use demosaic::nearest::NearestNeighbor;
use demosaic::{Color, Debayer, Image, Interpolation, Metadata, Rgb, Sensor, CFA};

fn sensor(width: u32, height: u32, data: Vec<u16>) -> Image<Sensor, u16> {
    Image { kind: Sensor, data, meta: Metadata::new(width, height, CFA::RGGB) }
}

fn four_by_four() -> Image<Sensor, u16> {
    sensor(
        4,
        4,
        vec![
            11, 22, 13, 24, //
            35, 46, 37, 48, //
            51, 62, 53, 64, //
            75, 86, 77, 88,
        ],
    )
}

fn three_by_three() -> Image<Sensor, u16> {
    sensor(3, 3, vec![1, 2, 3, 4, 5, 6, 7, 8, 10])
}

#[test]
fn expansion_keeps_each_sample_in_the_channel_of_its_colour() {
    let rgb = Debayer::new(four_by_four()).interpolate(Interpolation::Off);
    assert_eq!(
        rgb.data,
        vec![
            11, 0, 0, 0, 22, 0, 13, 0, 0, 0, 24, 0, //
            0, 35, 0, 0, 0, 46, 0, 37, 0, 0, 0, 48, //
            51, 0, 0, 0, 62, 0, 53, 0, 0, 0, 64, 0, //
            0, 75, 0, 0, 0, 86, 0, 77, 0, 0, 0, 88,
        ]
    );
    assert_eq!((rgb.meta.width, rgb.meta.height), (4, 4));
}

#[test]
fn expansion_is_exact_at_every_pixel() {
    let source = four_by_four();
    let samples = source.data.clone();
    let meta = source.meta;
    let rgb = Debayer::new(source).interpolate(Interpolation::Off);
    for i in 0..16usize {
        let native = meta.color_at_index(i);
        for color in [Color::Red, Color::Green, Color::Blue] {
            let expected = if color == native { samples[i] } else { 0 };
            assert_eq!(rgb.data[i * 3 + color.index()], expected);
        }
    }
}

#[test]
fn expansion_into_a_buffer_of_the_callers() {
    let raw: Vec<u16> = vec![1, 2, 3, 4, 5, 6];
    let mut rgb: Vec<u16> = vec![9; 18];
    Debayer::<u16>::expand_into(&raw, &mut rgb, CFA::RGGB, 3, 2);
    assert_eq!(rgb, vec![1, 0, 0, 0, 2, 0, 3, 0, 0, 0, 4, 0, 0, 0, 5, 0, 6, 0]);

    let same = Debayer::new(sensor(3, 2, raw)).interpolate(Interpolation::Off);
    assert_eq!(same.data, rgb);
}

#[test]
fn expansion_of_other_sample_types() {
    let bytes: Image<Sensor, u8> =
        Image { kind: Sensor, data: vec![255, 1, 2, 3], meta: Metadata::new(2, 2, CFA::RGGB) };
    let rgb = Debayer::new(bytes).interpolate(Interpolation::Off);
    assert_eq!(rgb.data, vec![255, 0, 0, 0, 1, 0, 0, 2, 0, 0, 0, 3]);

    let wide: Image<Sensor, u32> = Image {
        kind: Sensor,
        data: vec![u32::MAX, 1, 2, 3],
        meta: Metadata::new(2, 2, CFA::RGGB),
    };
    let rgb = Debayer::new(wide).interpolate(Interpolation::Bilinear);
    assert_eq!(rgb.data, vec![u32::MAX, 1, 3, u32::MAX, 1, 3, u32::MAX, 2, 3, u32::MAX, 1, 3]);
}

#[test]
fn nearest_neighbor_end_to_end() {
    let source = sensor(
        4,
        4,
        vec![
            100, 150, 100, 150, //
            150, 200, 150, 200, //
            100, 150, 100, 150, //
            150, 200, 150, 200,
        ],
    );
    let rgb = Debayer::new(source).interpolate(Interpolation::NearestNeighbor);
    // The blue pixel at column 1, row 1.
    assert_eq!(rgb.component(1, 1, Color::Red), 100);
    assert_eq!(rgb.component(1, 1, Color::Green), 150);
    assert_eq!(rgb.component(1, 1, Color::Blue), 200);
    for pixel in rgb.data.chunks(3) {
        assert_eq!(pixel, &[100, 150, 200]);
    }
}

#[test]
fn nearest_neighbor_takes_the_diagonal_and_the_upper_neighbour() {
    let rgb = Debayer::new(four_by_four()).interpolate(Interpolation::NearestNeighbor);
    // Blue pixel at (1, 1): red from (0, 0), green from (1, 0).
    assert_eq!(rgb.component(1, 1, Color::Red), 11);
    assert_eq!(rgb.component(1, 1, Color::Green), 22);
    assert_eq!(rgb.component(1, 1, Color::Blue), 46);
    // Red pixel at (2, 2): green from above, blue from above left.
    assert_eq!(rgb.component(2, 2, Color::Green), 37);
    assert_eq!(rgb.component(2, 2, Color::Blue), 46);
    // Red pixel at (0, 0): nothing above or left, so below and below right.
    assert_eq!(rgb.component(0, 0, Color::Green), 35);
    assert_eq!(rgb.component(0, 0, Color::Blue), 46);
}

#[test]
fn nearest_neighbor_four_by_four() {
    let rgb = Debayer::new(four_by_four()).interpolate(Interpolation::NearestNeighbor);
    assert_eq!(
        rgb.data,
        vec![
            11, 35, 46, 11, 22, 46, 13, 37, 46, 13, 24, 48, //
            11, 35, 46, 11, 22, 46, 13, 37, 46, 13, 24, 48, //
            51, 35, 46, 51, 62, 46, 53, 37, 46, 53, 64, 48, //
            51, 75, 86, 51, 62, 86, 53, 77, 86, 53, 64, 88,
        ]
    );
}

#[test]
fn nearest_neighbor_three_by_three() {
    let rgb = Debayer::new(three_by_three()).interpolate(Interpolation::NearestNeighbor);
    assert_eq!(
        rgb.data,
        vec![
            1, 4, 5, 1, 2, 5, 3, 6, 5, //
            1, 4, 5, 1, 2, 5, 3, 6, 5, //
            7, 4, 5, 7, 8, 5, 10, 6, 5,
        ]
    );
}

#[test]
fn nearest_neighbor_in_place_on_the_debayer() {
    let mut debayer = Debayer::new(three_by_three());
    debayer.nearest_neighboor();
    let rgb = debayer.interpolate(Interpolation::Off);
    assert_eq!(
        rgb.data,
        vec![
            1, 4, 5, 1, 2, 5, 3, 6, 5, //
            1, 4, 5, 1, 2, 5, 3, 6, 5, //
            7, 4, 5, 7, 8, 5, 10, 6, 5,
        ]
    );
}

#[test]
fn nearest_neighbor_get_component_by_pixel() {
    let rgb = Debayer::new(four_by_four()).interpolate(Interpolation::Off);
    // Its own sample where the sensor took the channel.
    assert_eq!(NearestNeighbor::get_component(&rgb, Color::Blue, 5), 46);
    assert_eq!(NearestNeighbor::get_component(&rgb, Color::Red, 5), 11);
    assert_eq!(NearestNeighbor::get_component(&rgb, Color::Green, 5), 22);
    // Green pixel in a row of red: red to the left, blue above.
    assert_eq!(NearestNeighbor::get_component(&rgb, Color::Red, 9), 51);
    assert_eq!(NearestNeighbor::get_component(&rgb, Color::Blue, 9), 46);
    // Green pixel in a row of blue: red above, blue to the left or right.
    assert_eq!(NearestNeighbor::get_component(&rgb, Color::Red, 4), 11);
    assert_eq!(NearestNeighbor::get_component(&rgb, Color::Blue, 4), 46);
    assert_eq!(NearestNeighbor::get_component(&rgb, Color::Blue, 6), 46);
}

#[test]
fn bilinear_four_by_four() {
    let rgb = Debayer::new(four_by_four()).interpolate(Interpolation::Bilinear);
    assert_eq!(
        rgb.data,
        vec![
            11, 28, 46, 12, 22, 46, 13, 27, 47, 13, 24, 48, //
            31, 35, 46, 32, 39, 46, 33, 37, 47, 33, 41, 48, //
            51, 57, 66, 52, 62, 66, 53, 60, 67, 53, 64, 68, //
            51, 75, 86, 52, 71, 86, 53, 77, 87, 53, 70, 88,
        ]
    );
}

#[test]
fn bilinear_three_by_three() {
    let rgb = Debayer::new(three_by_three()).interpolate(Interpolation::Bilinear);
    assert_eq!(
        rgb.data,
        vec![
            1, 3, 5, 2, 2, 5, 3, 4, 5, //
            4, 4, 5, 5, 5, 5, 6, 6, 5, //
            7, 6, 5, 8, 8, 5, 10, 7, 5,
        ]
    );
}

#[test]
fn bilinear_divides_by_the_number_of_neighbours() {
    let rgb = Debayer::new(four_by_four()).interpolate(Interpolation::Bilinear);
    // Blue pixel at (1, 1), inside: four red corners, four green edges.
    assert_eq!(rgb.component(1, 1, Color::Red), (11 + 13 + 51 + 53) / 4);
    assert_eq!(rgb.component(1, 1, Color::Green), (22 + 37 + 62 + 35) / 4);
    // Red pixel at (2, 0), top edge: three greens, two blues.
    assert_eq!(rgb.component(2, 0, Color::Green), (24 + 37 + 22) / 3);
    assert_eq!(rgb.component(2, 0, Color::Blue), (46 + 48) / 2);
    // Green pixel at (1, 0), top edge: red left and right, one blue below.
    assert_eq!(rgb.component(1, 0, Color::Red), (11 + 13) / 2);
    assert_eq!(rgb.component(1, 0, Color::Blue), 46);
    // Green pixel at (0, 1), left edge: red above and below, one blue.
    assert_eq!(rgb.component(0, 1, Color::Red), (11 + 51) / 2);
    assert_eq!(rgb.component(0, 1, Color::Blue), 46);
}

#[test]
fn bilinear_corner_takes_its_single_neighbour_as_it_is() {
    let rgb = Debayer::new(four_by_four()).interpolate(Interpolation::Bilinear);
    // Red corner at (0, 0): one blue neighbour, at (1, 1).
    assert_eq!(rgb.component(0, 0, Color::Blue), 46);
    assert_eq!(rgb.component(0, 0, Color::Green), (22 + 35) / 2);
    // Green corner at (3, 0): red only at (2, 0), blue only at (3, 1).
    assert_eq!(rgb.component(3, 0, Color::Red), 13);
    assert_eq!(rgb.component(3, 0, Color::Blue), 48);
    // Green corner at (0, 3): red only at (0, 2), blue only at (1, 3).
    assert_eq!(rgb.component(0, 3, Color::Red), 51);
    assert_eq!(rgb.component(0, 3, Color::Blue), 86);
    // Blue corner at (3, 3): one red neighbour, at (2, 2).
    assert_eq!(rgb.component(3, 3, Color::Red), 53);
    assert_eq!(rgb.component(3, 3, Color::Green), (64 + 77) / 2);
}

#[test]
fn bilinear_averages_by_pixel() {
    let rgb = Debayer::new(four_by_four()).interpolate(Interpolation::Off);
    // Red pixel at (2, 2), index 10.
    assert_eq!(Bilinear::average_for_red(&rgb, 10), ((37 + 64 + 77 + 62) / 4, (48 + 88 + 86 + 46) / 4));
    // Blue pixel at (1, 1), index 5.
    assert_eq!(Bilinear::average_for_blue(&rgb, 5), ((13 + 53 + 51 + 11) / 4, (22 + 37 + 62 + 35) / 4));
    // Green pixel at (0, 1), index 4: red above and below, blue right.
    assert_eq!(Bilinear::average_for_yeven_green(&rgb, 4), ((11 + 51) / 2, 46));
    // Green pixel at (1, 2), index 9: blue above and below, red left and right.
    assert_eq!(Bilinear::average_for_yodd_green(&rgb, 9), ((46 + 86) / 2, (51 + 53) / 2));
}

#[test]
fn bilinear_edges() {
    assert_eq!(Bilinear::edges(4, 3, 0, 0), (true, false, false, true));
    assert_eq!(Bilinear::edges(4, 3, 3, 0), (true, true, false, false));
    assert_eq!(Bilinear::edges(4, 3, 3, 2), (false, true, true, false));
    assert_eq!(Bilinear::edges(4, 3, 0, 2), (false, false, true, true));
    assert_eq!(Bilinear::edges(4, 3, 1, 1), (false, false, false, false));
    assert_eq!(Bilinear::edges(1, 1, 0, 0), (true, true, true, true));
}

#[test]
fn bilinear_does_not_overflow_on_the_largest_samples() {
    let source = sensor(2, 2, vec![65535, 65534, 65533, 65532]);
    let rgb = Debayer::new(source).interpolate(Interpolation::Bilinear);
    assert_eq!(
        rgb.data,
        vec![
            65535, 65533, 65532, 65535, 65534, 65532, //
            65535, 65533, 65532, 65535, 65533, 65532,
        ]
    );
}

#[test]
fn interpolation_leaves_no_channel_at_zero() {
    for interpolation in [Interpolation::NearestNeighbor, Interpolation::Bilinear] {
        for (width, height) in [(2u32, 2u32), (2, 3), (3, 2), (4, 4), (5, 7)] {
            let data: Vec<u16> = (0..width * height).map(|i| 1 + (i % 5) as u16).collect();
            let rgb = Debayer::new(sensor(width, height, data)).interpolate(interpolation);
            assert_eq!(rgb.data.len(), (width * height * 3) as usize);
            assert!(rgb.data.iter().all(|&v| v > 0));
        }
    }
}

#[test]
fn interpolation_keeps_the_samples_of_the_sensor() {
    for interpolation in [Interpolation::NearestNeighbor, Interpolation::Bilinear] {
        let source = four_by_four();
        let samples = source.data.clone();
        let meta = source.meta;
        let rgb = Debayer::new(source).interpolate(interpolation);
        for i in 0..16usize {
            assert_eq!(rgb.data[i * 3 + meta.color_at_index(i).index()], samples[i]);
        }
    }
}

#[test]
fn interpolation_is_repeatable() {
    for interpolation in [Interpolation::Off, Interpolation::NearestNeighbor, Interpolation::Bilinear] {
        let first = Debayer::new(four_by_four()).interpolate(interpolation);
        for _ in 0..20 {
            let again = Debayer::new(four_by_four()).interpolate(interpolation);
            assert_eq!(again.data, first.data);
        }
    }
}

#[test]
fn interpolation_in_place_on_an_image() {
    let mut rgb: Image<Rgb, u16> = Debayer::new(three_by_three()).interpolate(Interpolation::Off);
    Bilinear::interpolate(&mut rgb);
    assert_eq!(rgb.data[0..9], [1, 3, 5, 2, 2, 5, 3, 4, 5]);
    let mut rgb: Image<Rgb, u16> = Debayer::new(three_by_three()).interpolate(Interpolation::Off);
    NearestNeighbor::interpolate(&mut rgb);
    assert_eq!(rgb.data[0..9], [1, 4, 5, 1, 2, 5, 3, 6, 5]);
}

#[test]
fn single_pixel_has_nothing_to_interpolate_from() {
    for interpolation in [Interpolation::NearestNeighbor, Interpolation::Bilinear] {
        let rgb = Debayer::new(sensor(1, 1, vec![9])).interpolate(interpolation);
        assert_eq!(rgb.data, vec![9, 0, 0]);
    }
}

#[test]
fn single_column_and_single_row() {
    let column = Debayer::new(sensor(1, 3, vec![5, 6, 7])).interpolate(Interpolation::Bilinear);
    assert_eq!(column.data, vec![5, 6, 0, 6, 6, 0, 7, 6, 0]);
    let column = Debayer::new(sensor(1, 3, vec![5, 6, 7])).interpolate(Interpolation::NearestNeighbor);
    assert_eq!(column.data, vec![5, 6, 0, 5, 6, 0, 7, 6, 0]);
    let row = Debayer::new(sensor(3, 1, vec![5, 6, 7])).interpolate(Interpolation::Bilinear);
    assert_eq!(row.data, vec![5, 6, 0, 6, 6, 0, 7, 6, 0]);
    let row = Debayer::new(sensor(3, 1, vec![5, 6, 7])).interpolate(Interpolation::NearestNeighbor);
    assert_eq!(row.data, vec![5, 6, 0, 5, 6, 0, 7, 6, 0]);
}

#[test]
fn debayer_reads_and_writes_single_samples() {
    let mut debayer = Debayer::new(three_by_three());
    assert_eq!(*debayer.get_pixel(Color::Red, 0, 0), 1);
    assert_eq!(*debayer.get_pixel(Color::Green, 0, 0), 0);
    assert_eq!(*debayer.get_pixel(Color::Green, 1, 0), 2);
    assert_eq!(*debayer.get_pixel(Color::Blue, 1, 1), 5);
    assert_eq!(*debayer.get_pixel(Color::Red, 2, 2), 10);
    debayer.set_pixel(Color::Green, 77, 0, 0);
    debayer.set_pixel(Color::Blue, 88, 2, 1);
    assert_eq!(*debayer.get_pixel(Color::Green, 0, 0), 77);
    let rgb = debayer.interpolate(Interpolation::Off);
    assert_eq!(
        rgb.data,
        vec![
            1, 77, 0, 0, 2, 0, 3, 0, 0, //
            0, 4, 0, 0, 0, 5, 0, 6, 88, //
            7, 0, 0, 0, 8, 0, 10, 0, 0,
        ]
    );
}
