use mandelbrot::pixel::OPAQUE;
use mandelbrot::{
    truncate_channel, BasicColoring, HsvColoring, LchColoring, Palette, Pixel, RenderError,
    RgbNormalizedColoring,
};

fn rgb(p: Pixel) -> (u8, u8, u8) {
    (p.red(), p.green(), p.blue())
}

#[test]
fn pixel_keeps_its_channels() {
    let p = Pixel::new(1, 2, 3);
    assert_eq!(p.red(), 1);
    assert_eq!(p.green(), 2);
    assert_eq!(p.blue(), 3);
    assert_eq!(p.alpha(), 255);
    assert_eq!(OPAQUE, 255);
}

#[test]
fn pixel_bytes_are_red_green_blue_alpha() {
    assert_eq!(Pixel::new(10, 20, 30).to_rgba(), [10, 20, 30, 255]);
    assert_eq!(Pixel::new(0, 0, 0).to_rgba(), [0, 0, 0, 255]);
}

#[test]
fn pixels_compare_by_channels() {
    assert_eq!(Pixel::new(1, 2, 3), Pixel::new(1, 2, 3));
    assert_ne!(Pixel::new(1, 2, 3), Pixel::new(3, 2, 1));
}

#[test]
fn channel_values_in_range_are_kept() {
    assert_eq!(truncate_channel(0), 0);
    assert_eq!(truncate_channel(1), 1);
    assert_eq!(truncate_channel(128), 128);
    assert_eq!(truncate_channel(255), 255);
}

#[test]
fn channel_values_out_of_range_wrap() {
    assert_eq!(truncate_channel(256), 0);
    assert_eq!(truncate_channel(257), 1);
    assert_eq!(truncate_channel(350), 94);
    assert_eq!(truncate_channel(510), 254);
    assert_eq!(truncate_channel(-1), 255);
    assert_eq!(truncate_channel(-211), 45);
    assert_eq!(truncate_channel(-256), 0);
    assert_eq!(truncate_channel(-510), 2);
    assert_eq!(truncate_channel(i64::MAX), 255);
    assert_eq!(truncate_channel(i64::MIN), 0);
}

#[test]
fn basic_band_boundary_at_sixteen() {
    assert_eq!(rgb(BasicColoring.color(15, 50)), (120, 120, 188));
    assert_eq!(rgb(BasicColoring.color(16, 50)), (128, 128, 192));
}

#[test]
fn basic_first_band() {
    assert_eq!(rgb(BasicColoring.color(0, 50)), (0, 0, 128));
    assert_eq!(rgb(BasicColoring.color(1, 50)), (8, 8, 132));
    for i in 0..16u32 {
        let expected = ((8 * i) as u8, (8 * i) as u8, (128 + 4 * i) as u8);
        assert_eq!(rgb(BasicColoring.color(i, 1000)), expected);
    }
}

#[test]
fn basic_second_band() {
    assert_eq!(rgb(BasicColoring.color(17, 100)), (129, 129, 193));
    assert_eq!(rgb(BasicColoring.color(63, 100)), (175, 175, 239));
    for i in 16..64u32 {
        let expected = ((112 + i) as u8, (112 + i) as u8, (176 + i) as u8);
        assert_eq!(rgb(BasicColoring.color(i, 1000)), expected);
    }
}

#[test]
fn basic_band_boundary_at_sixty_four() {
    assert_eq!(rgb(BasicColoring.color(63, 100)), (175, 175, 239));
    assert_eq!(rgb(BasicColoring.color(64, 100)), (255, 191, 255));
}

#[test]
fn basic_third_band() {
    assert_eq!(rgb(BasicColoring.color(65, 1000)), (254, 191, 254));
    assert_eq!(rgb(BasicColoring.color(100, 1000)), (219, 173, 219));
    assert_eq!(rgb(BasicColoring.color(255, 1000)), (64, 96, 64));
    assert_eq!(rgb(BasicColoring.color(318, 1000)), (1, 64, 1));
    assert_eq!(rgb(BasicColoring.color(319, 1000)), (0, 64, 0));
}

#[test]
fn basic_third_band_wraps_past_319() {
    assert_eq!(rgb(BasicColoring.color(320, 1000)), (255, 63, 255));
    assert_eq!(rgb(BasicColoring.color(321, 1000)), (254, 63, 254));
    assert_eq!(rgb(BasicColoring.color(446, 1000)), (129, 0, 129));
    assert_eq!(rgb(BasicColoring.color(447, 1000)), (128, 0, 128));
    assert_eq!(rgb(BasicColoring.color(448, 1000)), (127, 255, 127));
    assert_eq!(rgb(BasicColoring.color(449, 1000)), (126, 255, 126));
    assert_eq!(rgb(BasicColoring.color(1000, 1000)), (87, 235, 87));
    assert_eq!(rgb(BasicColoring.color(u32::MAX, u32::MAX)), (64, 224, 64));
}

#[test]
fn basic_colours_the_cap_by_its_band() {
    // A count at or above the cap still lies in a band: no count is left black.
    assert_eq!(rgb(BasicColoring.color(50, 50)), (162, 162, 226));
    assert_eq!(rgb(BasicColoring.color(10, 10)), (80, 80, 168));
    assert_eq!(rgb(BasicColoring.color(70, 50)), (249, 188, 249));
    assert_eq!(rgb(BasicColoring.color(0, 0)), (0, 0, 128));
}

#[test]
fn basic_does_not_depend_on_the_cap() {
    for i in [0u32, 15, 16, 63, 64, 319, 320, 5000] {
        assert_eq!(BasicColoring.color(i, 1), BasicColoring.color(i, u32::MAX));
    }
}

#[test]
fn basic_pixels_are_opaque() {
    for i in [0u32, 15, 16, 64, 319, 1000] {
        assert_eq!(BasicColoring.color(i, 1000).alpha(), 255);
    }
}

#[test]
fn hsv_arranges_channels_by_sector() {
    let x = 96;
    assert_eq!(rgb(HsvColoring.quantize(0, x).unwrap()), (255, 96, 0));
    assert_eq!(rgb(HsvColoring.quantize(1, x).unwrap()), (96, 255, 0));
    assert_eq!(rgb(HsvColoring.quantize(2, x).unwrap()), (0, 255, 96));
    assert_eq!(rgb(HsvColoring.quantize(3, x).unwrap()), (0, 96, 255));
    assert_eq!(rgb(HsvColoring.quantize(4, x).unwrap()), (96, 0, 255));
    assert_eq!(rgb(HsvColoring.quantize(5, x).unwrap()), (255, 0, 96));
}

#[test]
fn hsv_refuses_a_seventh_sector() {
    assert_eq!(HsvColoring.quantize(6, 96), Err(RenderError::HueOutOfRange));
    assert_eq!(HsvColoring.quantize(7, 0), Err(RenderError::HueOutOfRange));
    assert_eq!(HsvColoring.quantize(u32::MAX, -5), Err(RenderError::HueOutOfRange));
}

#[test]
fn hsv_second_value_wraps() {
    assert_eq!(rgb(HsvColoring.quantize(0, 510).unwrap()), (255, 254, 0));
    assert_eq!(rgb(HsvColoring.quantize(2, -211).unwrap()), (0, 255, 45));
    assert_eq!(rgb(HsvColoring.quantize(4, -510).unwrap()), (2, 0, 255));
    assert_eq!(rgb(HsvColoring.quantize(5, -877).unwrap()), (255, 0, 147));
}

#[test]
fn hsv_pixels_are_opaque() {
    for sector in 0..6u32 {
        assert_eq!(HsvColoring.quantize(sector, 1234).unwrap().alpha(), 255);
    }
}

// The tone curve of the hue palette as a caller computes it.
fn hue_tone(i: u32, n: u32) -> (u32, i64) {
    let ratio = (i as f64 / n as f64).powf(1.5);
    let h = (1000.0 * ratio) % 6.0;
    let x = 255.0 * (2.0 - (h % 360.0));
    (h as u32, x as i64)
}

#[test]
fn hsv_sector_stays_below_six_for_every_count() {
    for n in [1u32, 2, 3, 7, 50, 255, 1000] {
        for i in 0..=n {
            let (sector, x) = hue_tone(i, n);
            assert!(sector < 6, "count {} of {} gives sector {}", i, n, sector);
            assert!(HsvColoring.quantize(sector, x).is_ok());
        }
    }
}

#[test]
fn hsv_tones_of_known_counts() {
    assert_eq!(hue_tone(0, 50), (0, 510));
    assert_eq!(rgb(HsvColoring.quantize(0, 510).unwrap()), (255, 254, 0));
    assert_eq!(hue_tone(5, 50), (1, 96));
    assert_eq!(rgb(HsvColoring.quantize(1, 96).unwrap()), (96, 255, 0));
    assert_eq!(hue_tone(50, 50), (4, -510));
    assert_eq!(rgb(HsvColoring.quantize(4, -510).unwrap()), (2, 0, 255));
}

#[test]
fn rgb_is_grey() {
    assert_eq!(rgb(RgbNormalizedColoring.quantize(0)), (0, 0, 0));
    assert_eq!(rgb(RgbNormalizedColoring.quantize(100)), (100, 100, 100));
    assert_eq!(rgb(RgbNormalizedColoring.quantize(255)), (255, 255, 255));
    assert_eq!(RgbNormalizedColoring.quantize(100).alpha(), 255);
}

#[test]
fn rgb_wraps_above_255() {
    assert_eq!(rgb(RgbNormalizedColoring.quantize(256)), (0, 0, 0));
    assert_eq!(rgb(RgbNormalizedColoring.quantize(350)), (94, 94, 94));
    assert_eq!(rgb(RgbNormalizedColoring.quantize(359)), (103, 103, 103));
    assert_eq!(rgb(RgbNormalizedColoring.quantize(-1)), (255, 255, 255));
}

#[test]
fn lch_truncates_each_channel_by_itself() {
    assert_eq!(rgb(LchColoring.quantize(40, -22, 1)), (40, 234, 1));
    assert_eq!(rgb(LchColoring.quantize(556, 444, 946)), (44, 188, 178));
    assert_eq!(rgb(LchColoring.quantize(0, 255, 256)), (0, 255, 0));
    assert_eq!(LchColoring.quantize(556, 444, 946).alpha(), 255);
}

#[test]
fn palette_names() {
    assert_eq!(Palette::from_name("basic"), Ok(Palette::Basic));
    assert_eq!(Palette::from_name("hsv"), Ok(Palette::Hsv));
    assert_eq!(Palette::from_name("rgb"), Ok(Palette::Rgb));
    assert_eq!(Palette::from_name("lch"), Ok(Palette::Lch));
}

#[test]
fn unknown_palette_names() {
    for name in ["", "RGB", "Basic", "rgb ", " rgb", "rg", "rgbb", "hsl", "lch\n", "bas\u{e9}c"] {
        assert_eq!(Palette::from_name(name), Err(RenderError::UnknownPalette), "{:?}", name);
    }
}

#[test]
fn error_messages() {
    assert_eq!(RenderError::UnknownPalette.message(), "unknown palette");
    assert_eq!(RenderError::HueOutOfRange.message(), "hue sector out of range");
}
