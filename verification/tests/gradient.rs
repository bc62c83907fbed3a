use blamegrad::color::{get_grad, Rgb};

#[test]
fn gradient_has_exactly_n_colors() {
    let start = Rgb { r: 0x70, g: 0xc0, b: 0xb1 };
    let end = Rgb { r: 0xc5, g: 0xc8, b: 0xc6 };
    for n in 1..20u32 {
        let grad = get_grad(&start, &end, n);
        assert_eq!(grad.len(), n as usize);
    }
}

#[test]
fn gradient_channels_stay_in_range() {
    let start = Rgb { r: 0x70, g: 0xc0, b: 0xb1 };
    let end = Rgb { r: 0xc5, g: 0xc8, b: 0xc6 };
    let grad = get_grad(&start, &end, 17);
    for c in &grad {
        assert!(c.r >= start.r.min(end.r) && c.r <= start.r.max(end.r));
        assert!(c.g >= start.g.min(end.g) && c.g <= start.g.max(end.g));
        assert!(c.b >= start.b.min(end.b) && c.b <= start.b.max(end.b));
    }
}

#[test]
fn gradient_last_color_is_end() {
    let start = Rgb { r: 10, g: 200, b: 77 };
    let end = Rgb { r: 250, g: 0, b: 128 };
    for n in 1..10u32 {
        let grad = get_grad(&start, &end, n);
        assert_eq!(*grad.last().unwrap(), end);
    }
}

#[test]
fn gradient_single_step_equals_end() {
    let start = Rgb { r: 0x70, g: 0xc0, b: 0xb1 };
    let end = Rgb { r: 0xc5, g: 0xc8, b: 0xc6 };
    let grad = get_grad(&start, &end, 1);
    assert_eq!(grad.len(), 1);
    assert_eq!(grad[0], end);
}

#[test]
fn gradient_zero_steps_is_empty() {
    let start = Rgb { r: 1, g: 2, b: 3 };
    let end = Rgb { r: 4, g: 5, b: 6 };
    assert!(get_grad(&start, &end, 0).is_empty());
}

#[test]
fn gradient_three_steps_exact_values() {
    // Palette 0: start 0x70c0b1, end 0xc5c8c6, blended at 1/3, 2/3, 3/3.
    let start = Rgb { r: 0x70, g: 0xc0, b: 0xb1 };
    let end = Rgb { r: 0xc5, g: 0xc8, b: 0xc6 };
    let grad = get_grad(&start, &end, 3);
    assert_eq!(grad[0], Rgb { r: 140, g: 194, b: 184 });
    assert_eq!(grad[1], Rgb { r: 168, g: 197, b: 191 });
    assert_eq!(grad[2], Rgb { r: 197, g: 200, b: 198 });
}

#[test]
fn gradient_first_color_is_one_step_blended() {
    // The first color must not be the pure start color.
    let start = Rgb { r: 0, g: 0, b: 0 };
    let end = Rgb { r: 100, g: 100, b: 100 };
    let grad = get_grad(&start, &end, 4);
    assert_eq!(grad[0], Rgb { r: 25, g: 25, b: 25 });
    assert_ne!(grad[0], start);
}
