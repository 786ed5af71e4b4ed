use carbonyl::gfx::{Color, Point, Rect, Size};

/// The palette index the way it is defined with floats: gray ramp for dark
/// colors, else each channel rounded onto six levels of the color cube.
fn reference_xterm(c: Color) -> u8 {
    let max = c.r.max(c.g).max(c.b);
    if max < 8 {
        match c.r {
            0..=4 => 16,
            5..=8 => 232,
            238..=246 => 255,
            247..=255 => 231,
            r => 232 + (r - 8) / 10,
        }
    } else {
        let scale: f32 = 5.0 / 200.0;
        let level = |v: u8| (v as f32).mul_add(scale, -55.0 * scale).max(0.0).round();
        (16.0 + level(c.r) * 36.0 + level(c.g) * 6.0 + level(c.b)) as u8
    }
}

#[test]
fn constructors() {
    assert_eq!(Color::<u8>::new(1, 2, 3), Color { r: 1, g: 2, b: 3 });
    assert_eq!(Color::<u8>::splat(9), Color { r: 9, g: 9, b: 9 });
    assert_eq!(Color::black(), Color { r: 0, g: 0, b: 0 });
    assert_eq!(Point::<i32>::splat(4), Point { x: 4, y: 4 });
    assert_eq!(Size::<u32>::new(3, 5), Size { width: 3, height: 5 });
    assert_eq!(
        Rect::<i32, u32>::new(1, 2, 3, 4),
        Rect { origin: Point { x: 1, y: 2 }, size: Size { width: 3, height: 4 } }
    );
}

#[test]
fn average_is_floor_of_mean() {
    let a = Color::<u8>::new(255, 0, 7);
    let b = Color::<u8>::new(254, 1, 8);
    assert_eq!(a.avg_with(b), Color { r: 254, g: 0, b: 7 });
    assert_eq!(a.avg_with(a), a);
    assert_eq!(a.avg_with(b), b.avg_with(a));
}

#[test]
fn min_and_max_fold_from_zero() {
    let c = Color::<u8>::new(30, 200, 90);
    assert_eq!(c.max_val(), 200);
    assert_eq!(c.min_val(), 0);
}

#[test]
fn pixels_are_bgra() {
    let bytes = [1u8, 2, 3, 4, 5, 6, 7];
    let mut pos = 0;
    assert_eq!(Color::from_iter(&bytes, &mut pos), Some(Color { r: 3, g: 2, b: 1 }));
    assert_eq!(pos, 4);
    assert_eq!(Color::from_iter(&bytes, &mut pos), Some(Color { r: 7, g: 6, b: 5 }));
    assert_eq!(pos, 7);
    assert_eq!(Color::from_iter(&bytes, &mut pos), None);
    let short = [1u8, 2];
    let mut pos = 0;
    assert_eq!(Color::from_iter(&short, &mut pos), None);
    assert_eq!(pos, 2);
}

#[test]
fn inside_excludes_far_edges() {
    let rect = Rect::<i32, u32>::new(2, 3, 4, 5);
    assert!(Point::new(2, 3).inside(rect));
    assert!(Point::new(5, 7).inside(rect));
    assert!(!Point::new(6, 7).inside(rect));
    assert!(!Point::new(5, 8).inside(rect));
    assert!(!Point::new(1, 3).inside(rect));
}

#[test]
fn xterm_codes_of_known_colors() {
    assert_eq!(Color::<u8>::new(255, 0, 0).to_xterm(), 196);
    assert_eq!(Color::<u8>::new(0, 0, 255).to_xterm(), 21);
    assert_eq!(Color::<u8>::new(255, 255, 255).to_xterm(), 231);
    assert_eq!(Color::<u8>::new(0, 0, 0).to_xterm(), 16);
    assert_eq!(Color::<u8>::new(6, 0, 0).to_xterm(), 232);
    assert_eq!(Color::<u8>::new(128, 128, 128).to_xterm(), 16 + 36 * 2 + 6 * 2 + 2);
}

#[test]
fn xterm_codes_match_the_float_formula() {
    for r in 0..=255u8 {
        for g in (0..=255u8).step_by(5) {
            for b in [0u8, 4, 7, 8, 34, 35, 54, 55, 74, 75, 76, 114, 115, 154, 155, 194, 195, 234, 235, 255] {
                let c = Color::<u8>::new(r, g, b);
                assert_eq!(c.to_xterm(), reference_xterm(c), "{:?}", c);
            }
        }
    }
    for g in 0..=255u8 {
        let c = Color::<u8>::new(3, g, 0);
        assert_eq!(c.to_xterm(), reference_xterm(c), "{:?}", c);
    }
}

#[test]
fn xterm_codes_channel_by_channel() {
    for v in 0..=255u8 {
        for other in [0u8, 8, 100, 255] {
            for c in [
                Color::<u8>::new(v, other, other),
                Color::<u8>::new(other, v, other),
                Color::<u8>::new(other, other, v),
            ] {
                assert_eq!(c.to_xterm(), reference_xterm(c), "{:?}", c);
            }
        }
    }
    for r in 0..8u8 {
        for g in 0..8u8 {
            for b in 0..8u8 {
                let c = Color::<u8>::new(r, g, b);
                assert_eq!(c.to_xterm(), reference_xterm(c), "{:?}", c);
            }
        }
    }
}
