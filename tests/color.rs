use voxel_caster::color::{max_value, Color, Named, BLUE_MAX, GREEN_MAX, RED_MAX};

fn float_level(v: u8, max: u8) -> u8 {
    ((v as f32 / 255.0) * max as f32) as u8
}

fn float_byte(level: u8, max: u8) -> u8 {
    ((level as f32 / max as f32) * 255.0) as u8
}

#[test]
fn max_value_counts_bits() {
    assert_eq!(max_value(0), 0);
    assert_eq!(max_value(2), 3);
    assert_eq!(max_value(3), 7);
    assert_eq!(max_value(8), 255);
}

#[test]
fn black_bytes_pack_to_zero() {
    assert_eq!(Color::from_byte_rgb(0, 0, 0).0, 0);
}

#[test]
fn white_bytes_pack_to_all_ones() {
    let c = Color::from_byte_rgb(255, 255, 255);
    assert_eq!(c.0, 255);
    assert_eq!(c.red_level(), RED_MAX);
    assert_eq!(c.green_level(), GREEN_MAX);
    assert_eq!(c.blue_level(), BLUE_MAX);
    let r = c.red_level() as f32 / RED_MAX as f32;
    let g = c.green_level() as f32 / GREEN_MAX as f32;
    let b = c.blue_level() as f32 / BLUE_MAX as f32;
    assert!((r - 1.0).abs() <= 1.0 / RED_MAX as f32);
    assert!((g - 1.0).abs() <= 1.0 / GREEN_MAX as f32);
    assert!((b - 1.0).abs() <= 1.0 / BLUE_MAX as f32);
    assert_eq!((c.red_byte(), c.green_byte(), c.blue_byte()), (255, 255, 255));
}

#[test]
fn byte_quantization_matches_float_formula() {
    for v in 0..=255u8 {
        let c = Color::from_byte_rgb(v, v, v);
        assert_eq!(c.red_level(), float_level(v, RED_MAX), "red {}", v);
        assert_eq!(c.green_level(), float_level(v, GREEN_MAX), "green {}", v);
        assert_eq!(c.blue_level(), float_level(v, BLUE_MAX), "blue {}", v);
    }
}

#[test]
fn channel_bytes_match_float_formula() {
    for p in 0..=255u8 {
        let c = Color(p);
        assert_eq!(c.red_byte(), float_byte(c.red_level(), RED_MAX));
        assert_eq!(c.green_byte(), float_byte(c.green_level(), GREEN_MAX));
        assert_eq!(c.blue_byte(), float_byte(c.blue_level(), BLUE_MAX));
    }
}

#[test]
fn levels_are_read_from_their_bits() {
    let c = Color(0b101_10_011);
    assert_eq!(c.red_level(), 5);
    assert_eq!(c.green_level(), 2);
    assert_eq!(c.blue_level(), 3);
    assert_eq!(Color::from_levels(5, 2, 3), c);
}

#[test]
fn from_levels_saturates() {
    assert_eq!(Color::from_levels(9, 4, 200).0, 255);
    assert_eq!(Color::from_levels(8, 0, 0).0, 0b111_00_000);
    assert_eq!(Color::from_levels(0, 0, 0).0, 0);
}

#[test]
fn pure_green_bytes_give_green() {
    assert_eq!(Color::from_byte_rgb(0, 255, 0), Color::named(Named::Green));
    assert_eq!(Color::from_byte_rgb(0, 255, 0).0, 0b000_11_000);
}

#[test]
fn named_colors() {
    assert_eq!(Color::named(Named::White).0, 255);
    assert_eq!(Color::named(Named::Black).0, 0);
    assert_eq!(Color::named(Named::Red).0, 0b111_00_000);
    assert_eq!(Color::named(Named::Blue).0, 0b000_00_111);
    assert_eq!(Color::named(Named::Yellow).0, 0b111_11_000);
    assert_eq!(Color::named(Named::Cyan).0, 0b000_11_111);
    assert_eq!(Color::named(Named::Magenta).0, 0b111_00_111);
    assert_eq!(Color::named(Named::Gray).0, 0b011_01_011);
}

#[test]
fn draw_writes_one_rgba_quad() {
    let mut frame = vec![7u8; 12];
    Color::named(Named::Gray).draw(&mut frame, 4);
    assert_eq!(frame, vec![7, 7, 7, 7, 109, 85, 109, 255, 7, 7, 7, 7]);
}

#[test]
fn draw_black_keeps_alpha_opaque() {
    let mut frame = vec![1u8; 4];
    Color(0).draw(&mut frame, 0);
    assert_eq!(frame, vec![0, 0, 0, 255]);
}

#[test]
fn byte_triple_converts_like_from_byte_rgb() {
    let c: Color = (0, 255, 0).into();
    assert_eq!(c, Color::from_byte_rgb(0, 255, 0));
    let g: Color = (128, 128, 128).into();
    assert_eq!(g.0, 0b011_01_011);
}
