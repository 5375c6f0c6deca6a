use tui_equalizer::gradient::gradient;
use tui_equalizer::Rgb;

#[test]
fn the_foot_of_a_column_is_green() {
    for height in [1u16, 2, 3, 10, 255, 510, 65535] {
        assert_eq!(gradient(0, height), Rgb { r: 0, g: 255, b: 0 });
    }
}

#[test]
fn the_middle_of_a_column_is_yellow() {
    for height in [2u16, 10, 510, 65534] {
        assert_eq!(gradient(height / 2, height), Rgb { r: 255, g: 255, b: 0 });
    }
}

#[test]
fn a_column_of_ten_rows() {
    let expected = [
        (0, 255),
        (51, 255),
        (102, 255),
        (153, 255),
        (204, 255),
        (255, 255),
        (255, 204),
        (255, 153),
        (255, 102),
        (255, 51),
    ];
    for (row, (r, g)) in expected.into_iter().enumerate() {
        assert_eq!(gradient(row as u16, 10), Rgb { r, g, b: 0 });
    }
}

#[test]
fn channels_are_rounded_down() {
    assert_eq!(gradient(1, 3), Rgb { r: 170, g: 255, b: 0 });
    assert_eq!(gradient(2, 3), Rgb { r: 255, g: 170, b: 0 });
    assert_eq!(gradient(1, 7), Rgb { r: 72, g: 255, b: 0 });
    assert_eq!(gradient(3, 7), Rgb { r: 218, g: 255, b: 0 });
    assert_eq!(gradient(4, 7), Rgb { r: 255, g: 218, b: 0 });
    assert_eq!(gradient(6, 7), Rgb { r: 255, g: 72, b: 0 });
    assert_eq!(gradient(1, 65535), Rgb { r: 0, g: 255, b: 0 });
    assert_eq!(gradient(32767, 65535), Rgb { r: 254, g: 255, b: 0 });
    assert_eq!(gradient(32768, 65535), Rgb { r: 255, g: 254, b: 0 });
    assert_eq!(gradient(65534, 65535), Rgb { r: 255, g: 0, b: 0 });
}

#[test]
fn the_top_row_of_a_column_is_one_step_short_of_red() {
    assert_eq!(gradient(0, 1), Rgb { r: 0, g: 255, b: 0 });
    assert_eq!(gradient(1, 2), Rgb { r: 255, g: 255, b: 0 });
    assert_eq!(gradient(99, 100), Rgb { r: 255, g: 5, b: 0 });
    assert_eq!(gradient(509, 510), Rgb { r: 255, g: 1, b: 0 });
}

#[test]
fn rows_past_the_column_are_red() {
    assert_eq!(gradient(10, 10), Rgb { r: 255, g: 0, b: 0 });
    assert_eq!(gradient(11, 10), Rgb { r: 255, g: 0, b: 0 });
    assert_eq!(gradient(0, 0), Rgb { r: 255, g: 0, b: 0 });
    assert_eq!(gradient(65535, 0), Rgb { r: 255, g: 0, b: 0 });
    assert_eq!(gradient(65535, 65535), Rgb { r: 255, g: 0, b: 0 });
}

#[test]
fn the_gradient_rises_without_a_jump() {
    for height in 1..=600u16 {
        let step = 510 / i32::from(height) + 2;
        let mut last = gradient(0, height);
        assert_eq!(last, Rgb { r: 0, g: 255, b: 0 });
        for row in 1..height {
            let color = gradient(row, height);
            assert_eq!(color.b, 0);
            assert!(color.r == 255 || color.g == 255);
            assert!(color.r >= last.r);
            assert!(color.g <= last.g);
            let moved = i32::from(color.r) - i32::from(last.r) + i32::from(last.g)
                - i32::from(color.g);
            assert!(moved <= step, "row {row} of {height} moved by {moved}");
            last = color;
        }
    }
}

#[test]
fn the_gradient_agrees_with_single_precision_to_one_step() {
    for height in 1..=400u16 {
        let color_step = 1.0 / f32::from(height);
        for row in 0..height {
            let v = f32::from(row) * color_step;
            let vv = 1.0 - v;
            let r = if v < 0.5 { v * 2.0 * 255.0 } else { 255.0 } as u8;
            let g = if v < 0.5 { 255.0 } else { vv * 2.0 * 255.0 } as u8;
            let color = gradient(row, height);
            assert!(color.r.abs_diff(r) <= 1, "red of row {row} of {height}");
            assert!(color.g.abs_diff(g) <= 1, "green of row {row} of {height}");
        }
    }
}
