use graphics_vid::color::{Color, CHANNEL_ONE};
use graphics_vid::gamma::{encode_pixel, gamma_correct_buffer, interp, linear_to_srgb};

#[test]
fn gamma_fixes_black_and_white() {
    // Linear 0.0 encodes to 0 and linear 1.0 to the maximum encoded value.
    assert_eq!(linear_to_srgb(0), 0);
    assert_eq!(linear_to_srgb(CHANNEL_ONE), CHANNEL_ONE);
}

#[test]
fn gamma_is_monotone_over_the_whole_range() {
    let mut last = 0u16;
    let mut x = 0u32;
    while x <= CHANNEL_ONE as u32 {
        let v = linear_to_srgb(x as u16);
        assert!(v >= last, "gamma decreased at {x}: {v} < {last}");
        last = v;
        x += 257;
    }
    assert_eq!(linear_to_srgb(CHANNEL_ONE), CHANNEL_ONE);
}

#[test]
fn gamma_brightens_mid_tones() {
    // The exact value of the quadratic approximation at the mid channel.
    assert_eq!(linear_to_srgb(32768), 47828);
}

#[test]
fn encode_pixel_packs_three_bytes() {
    let white = Color { r: CHANNEL_ONE, g: CHANNEL_ONE, b: CHANNEL_ONE, a: CHANNEL_ONE };
    let black = Color { r: 0, g: 0, b: 0, a: CHANNEL_ONE };
    let mixed = Color { r: 32768, g: 0, b: CHANNEL_ONE, a: CHANNEL_ONE };
    assert_eq!(encode_pixel(&white), 0x00ff_ffff);
    assert_eq!(encode_pixel(&black), 0);
    assert_eq!(encode_pixel(&mixed), 0x00ba_00ff);
}

#[test]
fn gamma_correct_buffer_encodes_every_pixel_in_order() {
    let input = vec![
        Color { r: 0, g: 0, b: 0, a: CHANNEL_ONE },
        Color { r: CHANNEL_ONE, g: CHANNEL_ONE, b: CHANNEL_ONE, a: CHANNEL_ONE },
        Color { r: 32768, g: 0, b: CHANNEL_ONE, a: 0 },
    ];
    let mut out: Vec<u32> = vec![999; 1];
    gamma_correct_buffer(&input, &mut out);
    assert_eq!(out, vec![0, 0x00ff_ffff, 0x00ba_00ff]);
}

#[test]
fn gamma_correct_buffer_matches_per_pixel_encoding_on_a_big_buffer() {
    let mut input = Vec::new();
    for i in 0..10_000u32 {
        let v = (i * 7 % 65536) as u16;
        input.push(Color { r: v, g: v / 2, b: v / 3, a: CHANNEL_ONE });
    }
    let mut out: Vec<u32> = Vec::new();
    gamma_correct_buffer(&input, &mut out);
    assert_eq!(out.len(), input.len());
    for (i, c) in input.iter().enumerate() {
        assert_eq!(out[i], encode_pixel(c), "pixel {i}");
    }
}

#[test]
fn interp_rounds_to_the_nearest_value() {
    assert_eq!(interp(1, 2, 10, 20), 15);
    assert_eq!(interp(1, 3, 0, 10), 3);
    assert_eq!(interp(0, 7, 100, 900), 100);
    assert_eq!(interp(7, 7, 100, 900), 900);
}
