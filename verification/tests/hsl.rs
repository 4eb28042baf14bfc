use mooncat::hsl::{hsl_to_rgb, rgb_to_hsl, Hsl, Ratio};

fn hsl(hue: (u32, u32), saturation: (u32, u32), lightness: (u32, u32)) -> Hsl {
    Hsl {
        hue: Ratio { num: hue.0, den: hue.1 },
        saturation: Ratio { num: saturation.0, den: saturation.1 },
        lightness: Ratio { num: lightness.0, den: lightness.1 },
    }
}

fn same(a: Ratio, b: (u32, u32)) -> bool {
    a.den > 0 && (a.num as u64) * (b.1 as u64) == (b.0 as u64) * (a.den as u64)
}

#[test]
fn gray_has_no_hue_and_no_saturation() {
    for v in [0u8, 1, 128, 255] {
        let c = rgb_to_hsl(v, v, v);
        assert_eq!(c.hue, Ratio { num: 0, den: 1 });
        assert_eq!(c.saturation, Ratio { num: 0, den: 1 });
        assert_eq!(c.lightness, Ratio { num: 2 * v as u32, den: 510 });
    }
}

#[test]
fn primary_and_secondary_hues() {
    assert!(same(rgb_to_hsl(255, 0, 0).hue, (0, 1)));
    assert!(same(rgb_to_hsl(255, 255, 0).hue, (60, 1)));
    assert!(same(rgb_to_hsl(0, 255, 0).hue, (120, 1)));
    assert!(same(rgb_to_hsl(0, 255, 255).hue, (180, 1)));
    assert!(same(rgb_to_hsl(0, 0, 255).hue, (240, 1)));
    assert!(same(rgb_to_hsl(255, 0, 255).hue, (300, 1)));
}

#[test]
fn hue_below_red_wraps_round_the_circle() {
    // red largest, blue above green: 360 - 60 * 1 / 2
    assert!(same(rgb_to_hsl(2, 0, 1).hue, (330, 1)));
    assert_eq!(rgb_to_hsl(2, 0, 1).hue, Ratio { num: 660, den: 2 });
    assert_eq!(rgb_to_hsl(2, 1, 0).hue, Ratio { num: 60, den: 2 });
}

#[test]
fn hue_is_kept_over_the_span_of_the_channels() {
    assert_eq!(rgb_to_hsl(0x20, 0x22, 0x41).hue, Ratio { num: 7800, den: 33 });
    assert_eq!(rgb_to_hsl(12, 200, 77).hue, Ratio { num: 26460, den: 188 });
    assert_eq!(rgb_to_hsl(0, 0, 255).hue, Ratio { num: 61200, den: 255 });
}

#[test]
fn saturation_and_lightness_of_a_color() {
    let c = rgb_to_hsl(200, 100, 50);
    // lightness 250 / 510, saturation 150 / (255 - 5)
    assert_eq!(c.lightness, Ratio { num: 250, den: 510 });
    assert_eq!(c.saturation, Ratio { num: 150, den: 250 });
    let d = rgb_to_hsl(255, 200, 200);
    assert_eq!(d.lightness, Ratio { num: 455, den: 510 });
    assert_eq!(d.saturation, Ratio { num: 55, den: 55 });
}

#[test]
fn fully_saturated_tones_of_red() {
    assert_eq!(hsl_to_rgb(hsl((0, 1), (1, 1), (10, 100))), (51, 0, 0));
    assert_eq!(hsl_to_rgb(hsl((0, 1), (1, 1), (20, 100))), (102, 0, 0));
    assert_eq!(hsl_to_rgb(hsl((0, 1), (1, 1), (45, 100))), (230, 0, 0));
    assert_eq!(hsl_to_rgb(hsl((0, 1), (1, 1), (70, 100))), (255, 102, 102));
    assert_eq!(hsl_to_rgb(hsl((0, 1), (1, 1), (50, 100))), (255, 0, 0));
}

#[test]
fn one_color_in_each_sector() {
    let l = (1, 2);
    let s = (1, 1);
    assert_eq!(hsl_to_rgb(hsl((30, 1), s, l)), (255, 128, 0));
    assert_eq!(hsl_to_rgb(hsl((90, 1), s, l)), (128, 255, 0));
    assert_eq!(hsl_to_rgb(hsl((150, 1), s, l)), (0, 255, 128));
    assert_eq!(hsl_to_rgb(hsl((210, 1), s, l)), (0, 128, 255));
    assert_eq!(hsl_to_rgb(hsl((270, 1), s, l)), (128, 0, 255));
    assert_eq!(hsl_to_rgb(hsl((330, 1), s, l)), (255, 0, 128));
}

#[test]
fn sector_borders() {
    let l = (1, 2);
    let s = (1, 1);
    assert_eq!(hsl_to_rgb(hsl((60, 1), s, l)), (255, 255, 0));
    assert_eq!(hsl_to_rgb(hsl((120, 1), s, l)), (0, 255, 0));
    assert_eq!(hsl_to_rgb(hsl((180, 1), s, l)), (0, 255, 255));
    assert_eq!(hsl_to_rgb(hsl((240, 1), s, l)), (0, 0, 255));
    assert_eq!(hsl_to_rgb(hsl((300, 1), s, l)), (255, 0, 255));
    assert_eq!(hsl_to_rgb(hsl((719, 2), s, l)), (255, 0, 2));
}

#[test]
fn black_white_and_gray() {
    assert_eq!(hsl_to_rgb(hsl((123, 1), (1, 1), (0, 1))), (0, 0, 0));
    assert_eq!(hsl_to_rgb(hsl((123, 1), (1, 1), (1, 1))), (255, 255, 255));
    assert_eq!(hsl_to_rgb(hsl((123, 1), (0, 1), (1, 2))), (128, 128, 128));
    assert_eq!(hsl_to_rgb(hsl((123, 1), (0, 7), (2, 5))), (102, 102, 102));
}

#[test]
fn partly_saturated_color() {
    // hue 200, saturation 0.5, lightness 0.4: chroma 0.4, offset 0.2
    assert_eq!(hsl_to_rgb(hsl((200, 1), (1, 2), (2, 5))), (51, 119, 153));
}

#[test]
fn large_denominators_do_not_overflow() {
    let big = u32::MAX;
    assert_eq!(
        hsl_to_rgb(hsl((big, big / 300), (big, big), (big / 2, big))),
        (255, 0, 255)
    );
}

#[test]
fn conversion_there_and_back_gives_the_color_again() {
    for r in (0..=255u8).step_by(3) {
        for g in (0..=255u8).step_by(5) {
            for b in (0..=255u8).step_by(5) {
                assert_eq!(hsl_to_rgb(rgb_to_hsl(r, g, b)), (r, g, b));
            }
        }
    }
}

#[test]
fn converted_color_is_well_formed() {
    for (r, g, b) in [(0u8, 0u8, 0u8), (255, 255, 255), (1, 2, 3), (250, 3, 99), (7, 7, 8)] {
        let c = rgb_to_hsl(r, g, b);
        assert!(c.hue.den > 0 && c.hue.den <= 255);
        assert!((c.hue.num as u64) < 360 * c.hue.den as u64);
        assert!(c.saturation.den > 0 && c.saturation.num <= c.saturation.den);
        assert!(c.lightness.den > 0 && c.lightness.num <= c.lightness.den);
    }
}

#[test]
fn channel_halfway_rounds_to_the_larger_value() {
    // hue 30, lightness 0.1: the middle channel is exactly 25.5
    assert_eq!(hsl_to_rgb(hsl((60, 2), (1, 1), (10, 100))), (51, 26, 0));
    // lightness 0.45: the largest channel is exactly 229.5
    assert_eq!(hsl_to_rgb(hsl((0, 1), (1, 1), (45, 100))), (230, 0, 0));
    // lightness 0.001: every channel is 0.255 or 0.51
    assert_eq!(hsl_to_rgb(hsl((0, 1), (1, 1), (1, 1000))), (1, 0, 0));
}
