use doomfire::Doomfire;
use doomfire::color_of;

/// The expected color ramp, coldest to hottest.
fn expected_palette() -> Vec<(u8, u8, u8, u8)> {
    vec![
        (0x07, 0x07, 0x07, 0xFF),
        (0x1F, 0x07, 0x07, 0xFF),
        (0x2F, 0x0F, 0x07, 0xFF),
        (0x47, 0x0F, 0x07, 0xFF),
        (0x57, 0x17, 0x07, 0xFF),
        (0x67, 0x1F, 0x07, 0xFF),
        (0x77, 0x1F, 0x07, 0xFF),
        (0x8F, 0x27, 0x07, 0xFF),
        (0x9F, 0x2F, 0x07, 0xFF),
        (0xAF, 0x3F, 0x07, 0xFF),
        (0xBF, 0x47, 0x07, 0xFF),
        (0xC7, 0x47, 0x07, 0xFF),
        (0xDF, 0x4F, 0x07, 0xFF),
        (0xDF, 0x57, 0x07, 0xFF),
        (0xDF, 0x57, 0x07, 0xFF),
        (0xD7, 0x5F, 0x07, 0xFF),
        (0xD7, 0x5F, 0x07, 0xFF),
        (0xD7, 0x67, 0x0F, 0xFF),
        (0xCF, 0x6F, 0x0F, 0xFF),
        (0xCF, 0x77, 0x0F, 0xFF),
        (0xCF, 0x7F, 0x0F, 0xFF),
        (0xCF, 0x87, 0x17, 0xFF),
        (0xC7, 0x87, 0x17, 0xFF),
        (0xC7, 0x8F, 0x17, 0xFF),
        (0xC7, 0x97, 0x1F, 0xFF),
        (0xBF, 0x9F, 0x1F, 0xFF),
        (0xBF, 0x9F, 0x1F, 0xFF),
        (0xBF, 0xA7, 0x27, 0xFF),
        (0xBF, 0xA7, 0x27, 0xFF),
        (0xBF, 0xAF, 0x2F, 0xFF),
        (0xB7, 0xAF, 0x2F, 0xFF),
        (0xB7, 0xB7, 0x2F, 0xFF),
        (0xB7, 0xB7, 0x37, 0xFF),
        (0xCF, 0xCF, 0x6F, 0xFF),
        (0xDF, 0xDF, 0x9F, 0xFF),
        (0xEF, 0xEF, 0xC7, 0xFF),
        (0xFF, 0xFF, 0xFF, 0xFF),
    ]
}

fn frame_of(f: &Doomfire, w: usize, h: usize) -> Vec<u8> {
    let mut buf = vec![0u8; w * h * 4];
    assert!(f.draw(&mut buf));
    buf
}

fn pixel(buf: &[u8], i: usize) -> (u8, u8, u8, u8) {
    (buf[4 * i], buf[4 * i + 1], buf[4 * i + 2], buf[4 * i + 3])
}

#[test]
fn palette_endpoints() {
    assert_eq!(color_of(0), (0x07, 0x07, 0x07, 0xFF));
    assert_eq!(color_of(36), (0xFF, 0xFF, 0xFF, 0xFF));
}

#[test]
fn palette_whole_ramp() {
    let expected = expected_palette();
    assert_eq!(expected.len(), 37);
    for (i, want) in expected.iter().enumerate() {
        assert_eq!(color_of(i), *want);
    }
}

#[test]
fn new_field_is_cold_and_unlit() {
    let f = Doomfire::new(6, 5);
    assert!(!f.is_lit);
    let buf = frame_of(&f, 6, 5);
    assert_eq!(buf.len(), 6 * 5 * 4);
    for i in 0..30 {
        assert_eq!(pixel(&buf, i), (0x07, 0x07, 0x07, 0xFF));
    }
}

#[test]
fn ignite_sets_bottom_row_and_nothing_else() {
    let mut f = Doomfire::new_seeded(5, 4, 7);
    f.ignite();
    assert!(f.is_lit);
    let buf = frame_of(&f, 5, 4);
    for i in 0..20 {
        if i >= 15 {
            assert_eq!(pixel(&buf, i), (0xFF, 0xFF, 0xFF, 0xFF));
        } else {
            assert_eq!(pixel(&buf, i), (0x07, 0x07, 0x07, 0xFF));
        }
    }
}

#[test]
fn ignite_is_idempotent() {
    let mut f = Doomfire::new_seeded(5, 4, 9);
    f.ignite();
    let once = frame_of(&f, 5, 4);
    f.ignite();
    let twice = frame_of(&f, 5, 4);
    assert!(f.is_lit);
    assert_eq!(once, twice);
}

#[test]
fn extinguish_flips_lit_only() {
    let mut f = Doomfire::new_seeded(6, 4, 3);
    f.ignite();
    let before = frame_of(&f, 6, 4);
    f.extinguish();
    assert!(!f.is_lit);
    let after = frame_of(&f, 6, 4);
    assert_eq!(before, after);
}

#[test]
fn unlit_fire_dies_out_and_stays_out() {
    let mut f = Doomfire::new_seeded(4, 4, 42);
    f.ignite();
    f.extinguish();
    for _ in 0..2000 {
        f.update();
    }
    let cold = frame_of(&f, 4, 4);
    for i in 0..16 {
        assert_eq!(pixel(&cold, i), (0x07, 0x07, 0x07, 0xFF));
    }
    for _ in 0..50 {
        f.update();
    }
    let still_cold = frame_of(&f, 4, 4);
    assert_eq!(cold, still_cold);
}

#[test]
fn render_matches_grid_of_known_values() {
    let f = Doomfire::from_grid(3, 3, vec![5; 9], 0).unwrap();
    let buf = frame_of(&f, 3, 3);
    for i in 0..9 {
        assert_eq!(pixel(&buf, i), color_of(5));
    }
}

#[test]
fn render_rejects_wrong_buffer_lengths() {
    let f = Doomfire::new_seeded(3, 3, 1);
    for len in [0usize, 1, 4, 35, 37, 32, 40, 72] {
        let mut buf = vec![9u8; len];
        let copy = buf.clone();
        assert!(!f.draw(&mut buf), "length {} must be rejected", len);
        assert_eq!(buf, copy, "a rejected buffer must be untouched");
    }
    let mut ok = vec![0u8; 36];
    assert!(f.draw(&mut ok));
}

#[test]
fn from_grid_rejects_bad_inputs() {
    assert!(Doomfire::from_grid(0, 3, vec![], 0).is_none());
    assert!(Doomfire::from_grid(3, 0, vec![], 0).is_none());
    assert!(Doomfire::from_grid(2, 2, vec![0; 3], 0).is_none());
    assert!(Doomfire::from_grid(2, 2, vec![0, 0, 37, 0], 0).is_none());
    assert!(Doomfire::from_grid(2, 2, vec![0, 36, 1, 5], 0).is_some());
}

#[test]
fn update_is_deterministic_for_a_seed() {
    let mut a = Doomfire::new_seeded(8, 8, 1234);
    let mut b = Doomfire::new_seeded(8, 8, 1234);
    a.ignite();
    b.ignite();
    for _ in 0..25 {
        a.update();
        b.update();
    }
    assert_eq!(frame_of(&a, 8, 8), frame_of(&b, 8, 8));
}

#[test]
fn lit_and_unlit_rules_diverge() {
    let mut a = Doomfire::new_seeded(8, 8, 99);
    let mut b = Doomfire::new_seeded(8, 8, 99);
    a.ignite();
    b.ignite();
    b.extinguish();
    for _ in 0..6 {
        a.update();
        b.update();
    }
    assert_ne!(frame_of(&a, 8, 8), frame_of(&b, 8, 8));
}

#[test]
fn update_keeps_every_cell_in_palette_range() {
    let mut f = Doomfire::new_seeded(10, 6, 5);
    f.ignite();
    let expected = expected_palette();
    for _ in 0..200 {
        f.update();
        let buf = frame_of(&f, 10, 6);
        for i in 0..60 {
            assert!(expected.contains(&pixel(&buf, i)));
        }
    }
}

#[test]
fn default_field_is_cold() {
    let f = Doomfire::default();
    assert!(!f.is_lit);
    let buf = frame_of(&f, 600, 400);
    assert_eq!(buf.len(), 600 * 400 * 4);
    assert_eq!(pixel(&buf, 0), (0x07, 0x07, 0x07, 0xFF));
    assert_eq!(pixel(&buf, 600 * 400 - 1), (0x07, 0x07, 0x07, 0xFF));
}
