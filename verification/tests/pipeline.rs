use fractal::dispatch::plan_rows;
use fractal::escape::EscapeCounter;
use fractal::pacing::pause_after_send;
use fractal::presenter::{Action, Event, Presenter};
use fractal::raster::{PixelResult, Rgb, HEIGHT, ITERATIONS, WIDTH};
use fractal::spectrum::{spectral_mix, wavelength_at, Ratio, Taper};
use num::complex::Complex;
use std::collections::HashSet;

fn normalize(color: f32, factor: f32) -> u8 {
    ((color * factor).powf(0.8) * 255.) as u8
}

fn level(ratio: Ratio) -> f32 {
    ratio.num as f32 / ratio.den as f32
}

fn wavelength_to_rgb(wavelength: u32) -> Rgb {
    let mix = spectral_mix(wavelength);
    let factor = match mix.taper {
        Taper::Full => 1.0,
        Taper::Ramp(ramp) => 0.3 + 0.7 * ramp.num as f32 / ramp.den as f32,
    };
    Rgb {
        r: normalize(level(mix.red), factor),
        g: normalize(level(mix.green), factor),
        b: normalize(level(mix.blue), factor),
    }
}

fn start_point(x: u32, y: u32, width: u32, height: u32) -> Complex<f32> {
    let width = width as f32;
    let height = height as f32;
    Complex {
        re: 3.0 * (x as f32 - 0.5 * width) / width,
        im: 2.0 * (y as f32 - 0.5 * height) / height,
    }
}

fn julia(c: Complex<f32>, x: u32, y: u32, width: u32, height: u32, max_iter: u32) -> u32 {
    let mut z = start_point(x, y, width, height);
    let mut counter = EscapeCounter::new(max_iter);
    while counter.wants_sample() {
        if counter.record(z.norm() >= 2.0) {
            z = z * z + c;
        }
    }
    counter.count()
}

/// The escape-time loop written out in full, to hold the counter against:
/// the steps completed before the first escape, and one less than the budget
/// for an orbit that never escapes.
fn julia_by_hand(c: Complex<f32>, x: u32, y: u32, width: u32, height: u32, max_iter: u32) -> u32 {
    let mut z = start_point(x, y, width, height);
    let mut steps = 0;
    while steps < max_iter {
        if z.norm() >= 2.0 {
            return steps;
        }
        z = z * z + c;
        steps += 1;
    }
    max_iter.saturating_sub(1)
}

fn constant() -> Complex<f32> {
    Complex::new(-0.8, 0.156)
}

fn rgb(r: u8, g: u8, b: u8) -> Rgb {
    Rgb { r, g, b }
}

#[test]
fn colours_at_the_band_edges() {
    assert_eq!(wavelength_to_rgb(380), rgb(97, 0, 97));
    assert_eq!(wavelength_to_rgb(440), rgb(0, 0, 255));
    assert_eq!(wavelength_to_rgb(490), rgb(0, 255, 255));
    assert_eq!(wavelength_to_rgb(510), rgb(0, 255, 0));
    assert_eq!(wavelength_to_rgb(580), rgb(255, 255, 0));
    assert_eq!(wavelength_to_rgb(645), rgb(255, 0, 0));
    assert_eq!(wavelength_to_rgb(700), rgb(255, 0, 0));
    assert_eq!(wavelength_to_rgb(780), rgb(97, 0, 0));
}

#[test]
fn colours_inside_the_bands() {
    assert_eq!(wavelength_to_rgb(400), rgb(130, 0, 180));
    assert_eq!(wavelength_to_rgb(419), rgb(108, 0, 251));
    assert_eq!(wavelength_to_rgb(420), rgb(105, 0, 255));
    assert_eq!(wavelength_to_rgb(439), rgb(9, 0, 255));
    assert_eq!(wavelength_to_rgb(460), rgb(0, 122, 255));
    assert_eq!(wavelength_to_rgb(489), rgb(0, 250, 255));
    assert_eq!(wavelength_to_rgb(500), rgb(0, 255, 146));
    assert_eq!(wavelength_to_rgb(509), rgb(0, 255, 23));
    assert_eq!(wavelength_to_rgb(545), rgb(146, 255, 0));
    assert_eq!(wavelength_to_rgb(579), rgb(252, 255, 0));
    assert_eq!(wavelength_to_rgb(600), rgb(255, 190, 0));
    assert_eq!(wavelength_to_rgb(644), rgb(255, 9, 0));
    assert_eq!(wavelength_to_rgb(701), rgb(253, 0, 0));
    assert_eq!(wavelength_to_rgb(750), rgb(160, 0, 0));
}

#[test]
fn colours_outside_the_visible_range_are_black() {
    for wavelength in (0..380).chain(781..1500) {
        assert_eq!(wavelength_to_rgb(wavelength), rgb(0, 0, 0));
    }
    assert_eq!(wavelength_to_rgb(u32::MAX), rgb(0, 0, 0));
}

#[test]
fn colours_are_the_same_on_every_call() {
    for wavelength in 380..=780 {
        assert_eq!(wavelength_to_rgb(wavelength), wavelength_to_rgb(wavelength));
    }
}

#[test]
fn centre_pixel_starts_at_the_origin() {
    let z = start_point(WIDTH / 2, HEIGHT / 2, WIDTH, HEIGHT);
    assert_eq!(z.re, 0.0);
    assert_eq!(z.im, 0.0);
    let count = julia(constant(), WIDTH / 2, HEIGHT / 2, WIDTH, HEIGHT, ITERATIONS);
    assert!(count < ITERATIONS);
    assert_eq!(count, julia(constant(), WIDTH / 2, HEIGHT / 2, WIDTH, HEIGHT, ITERATIONS));
    assert_eq!(count, 222);
}

#[test]
fn escape_counts_of_known_pixels() {
    let c = constant();
    assert_eq!(julia(c, 0, 0, 300, 300, 300), 1);
    assert_eq!(julia(c, 299, 299, 300, 300, 300), 1);
    assert_eq!(julia(c, 150, 0, 300, 300, 300), 2);
    assert_eq!(julia(c, 75, 75, 300, 300, 300), 3);
    assert_eq!(julia(c, 0, 150, 300, 300, 300), 4);
    assert_eq!(julia(c, 100, 150, 300, 300, 300), 31);
    assert_eq!(julia(c, 30, 150, 300, 300, 300), 299);
}

#[test]
fn counter_agrees_with_the_loop_written_out() {
    let c = constant();
    for budget in [0, 1, 2, 10, 300] {
        for y in (0..300).step_by(13) {
            for x in (0..300).step_by(11) {
                let count = julia(c, x, y, 300, 300, budget);
                assert_eq!(count, julia_by_hand(c, x, y, 300, 300, budget));
                assert!(budget == 0 || count < budget);
            }
        }
    }
}

#[test]
fn full_pipeline_paints_every_pixel_once() {
    let c = constant();
    // Workers, one scanline each, into a channel that never refuses.
    let mut channel = Vec::new();
    for mut job in plan_rows(WIDTH, HEIGHT) {
        while let Some((x, y)) = job.next_pixel() {
            let count = julia(c, x, y, WIDTH, HEIGHT, ITERATIONS);
            let color = wavelength_to_rgb(wavelength_at(count, ITERATIONS));
            channel.push(PixelResult { x, y, color });
            assert_eq!(pause_after_send(true), None);
        }
    }
    assert_eq!(channel.len(), 90_000);

    // The presentation loop drains the channel.
    let mut presenter = Presenter::new();
    let mut painted = Vec::new();
    for pixel in channel.iter() {
        match presenter.handle(Event::Pixel(*pixel)) {
            Action::Draw(drawn) => painted.push(drawn),
            other => panic!("pixel answered with {:?}", other),
        }
    }
    assert!(presenter.is_running());
    assert_eq!(painted, channel);

    let mut seen = HashSet::new();
    for pixel in painted.iter() {
        assert!(pixel.x < 300 && pixel.y < 300);
        assert!(seen.insert((pixel.x, pixel.y)));
        let count = julia_by_hand(c, pixel.x, pixel.y, 300, 300, 300);
        assert_eq!(pixel.color, wavelength_to_rgb(380 + count * 400 / 300));
    }
    assert_eq!(seen.len(), 90_000);
}

#[test]
fn pixels_arriving_out_of_order_are_all_painted() {
    // Four workers take turns, so the scanlines reach the loop interleaved,
    // with other events in between.
    let (width, height) = (13, 8);
    let c = constant();
    let mut jobs = plan_rows(width, height);
    let mut queue = Vec::new();
    let mut open = true;
    while open {
        open = false;
        for job in jobs.iter_mut().rev() {
            if let Some((x, y)) = job.next_pixel() {
                let count = julia(c, x, y, width, height, ITERATIONS);
                let color = wavelength_to_rgb(wavelength_at(count, ITERATIONS));
                queue.push(Event::Pixel(PixelResult { x, y, color }));
                queue.push(Event::Other);
                open = true;
            }
        }
    }
    assert_eq!(queue.len(), 2 * 13 * 8);
    assert_eq!(queue[0], Event::Pixel(PixelResult { x: 0, y: 7, color: wavelength_to_rgb(381) }));

    let mut presenter = Presenter::new();
    let mut seen = HashSet::new();
    for event in queue {
        if let Action::Draw(pixel) = presenter.handle(event) {
            assert!(pixel.x < width && pixel.y < height);
            assert!(seen.insert((pixel.x, pixel.y)));
            let count = julia_by_hand(c, pixel.x, pixel.y, width, height, ITERATIONS);
            assert_eq!(pixel.color, wavelength_to_rgb(380 + count * 400 / ITERATIONS));
        }
    }
    assert_eq!(seen.len(), 13 * 8);
    assert!(presenter.is_running());
}
