use mandelbrot::escape_time;
use std::cell::Cell;

// The orbit of the quadratic map in double precision, as a caller supplies it.
fn mandelbrot_time(cx: f64, cy: f64, cap: u32) -> u32 {
    escape_time(
        cap,
        (0.0f64, 0.0f64),
        |z: (f64, f64)| (z.0 * z.0 - z.1 * z.1 + cx, 2.0 * z.0 * z.1 + cy),
        |z: (f64, f64)| z.0 * z.0 + z.1 * z.1 > 4.0,
    )
}

#[test]
fn far_point_escapes_at_once() {
    assert_eq!(mandelbrot_time(3.0, 0.0, 50), 0);
    assert_eq!(mandelbrot_time(0.0, -2.5, 50), 0);
    assert_eq!(mandelbrot_time(-2.0, -1.0, 50), 0);
    assert_eq!(mandelbrot_time(100.0, 100.0, 1), 0);
}

#[test]
fn origin_never_escapes() {
    assert_eq!(mandelbrot_time(0.0, 0.0, 50), 50);
    assert_eq!(mandelbrot_time(0.0, 0.0, 1), 1);
    assert_eq!(mandelbrot_time(0.0, 0.0, 1000), 1000);
}

#[test]
fn zero_cap_gives_zero() {
    assert_eq!(mandelbrot_time(0.0, 0.0, 0), 0);
    assert_eq!(mandelbrot_time(3.0, 0.0, 0), 0);
}

#[test]
fn squared_magnitude_of_exactly_four_has_not_escaped() {
    // The orbit of -2 is -2, 2, 2, ...: its squared magnitude is 4 and never more.
    assert_eq!(mandelbrot_time(-2.0, 0.0, 50), 50);
}

#[test]
fn escape_time_counts_updates_from_zero() {
    assert_eq!(mandelbrot_time(-0.5, -1.0, 50), 3);
    assert_eq!(mandelbrot_time(0.5, 0.5, 50), 4);
    assert_eq!(mandelbrot_time(-0.5, 0.0, 50), 50);
    assert_eq!(mandelbrot_time(0.3, 0.5, 50), 50);
}

#[test]
fn escape_time_is_capped() {
    assert_eq!(mandelbrot_time(-0.5, -1.0, 3), 3);
    assert_eq!(mandelbrot_time(-0.5, -1.0, 4), 3);
    assert_eq!(mandelbrot_time(-0.5, -1.0, 2), 2);
}

#[test]
fn escape_time_of_an_integer_orbit() {
    let count = escape_time(10, 0u32, |z: u32| z + 1, |z: u32| z > 3);
    assert_eq!(count, 3);
    let capped = escape_time(2, 0u32, |z: u32| z + 1, |z: u32| z > 3);
    assert_eq!(capped, 2);
    let fixed = escape_time(7, 5u32, |z: u32| z, |z: u32| z > 5);
    assert_eq!(fixed, 7);
}

#[test]
fn search_stops_at_the_first_escape() {
    let steps = Cell::new(0u32);
    let tests = Cell::new(0u32);
    let count = escape_time(
        100,
        0u32,
        |z: u32| {
            steps.set(steps.get() + 1);
            z + 1
        },
        |z: u32| {
            tests.set(tests.get() + 1);
            z >= 5
        },
    );
    assert_eq!(count, 4);
    assert_eq!(steps.get(), 5);
    assert_eq!(tests.get(), 5);
}

#[test]
fn search_makes_cap_updates_without_escape() {
    let steps = Cell::new(0u32);
    let count = escape_time(
        9,
        0u32,
        |z: u32| {
            steps.set(steps.get() + 1);
            z
        },
        |_z: u32| false,
    );
    assert_eq!(count, 9);
    assert_eq!(steps.get(), 9);
}
