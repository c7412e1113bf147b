use fractal::dispatch::{plan_rows, pool_size, worker_count, RowJob};
use fractal::pacing::{frame_elapsed, pause_after_send, FRAMES_PER_SECOND, FRAME_INTERVAL_NANOS};
use fractal::raster::{HEIGHT, ITERATIONS, WIDTH};
use std::collections::HashSet;

#[test]
fn standard_picture_is_three_hundred_square() {
    assert_eq!(WIDTH, 300);
    assert_eq!(HEIGHT, 300);
    assert_eq!(ITERATIONS, 300);
}

#[test]
fn row_job_hands_out_its_scanline_left_to_right() {
    let mut job = RowJob::new(7, 4);
    assert_eq!(job.next_pixel(), Some((0, 7)));
    assert_eq!(job.next_pixel(), Some((1, 7)));
    assert_eq!(job.next_pixel(), Some((2, 7)));
    assert_eq!(job.next_pixel(), Some((3, 7)));
    assert_eq!(job.next_pixel(), None);
    assert_eq!(job.next_pixel(), None);
}

#[test]
fn row_job_of_an_empty_scanline_is_done_at_once() {
    let mut job = RowJob::new(3, 0);
    assert_eq!(job.next_pixel(), None);
}

#[test]
fn row_job_reaches_the_last_column() {
    let mut job = RowJob::new(u32::MAX, 2);
    assert_eq!(job.next_pixel(), Some((0, u32::MAX)));
    assert_eq!(job.next_pixel(), Some((1, u32::MAX)));
    assert_eq!(job.next_pixel(), None);
}

#[test]
fn plan_rows_has_one_job_per_scanline() {
    let jobs = plan_rows(5, 3);
    assert_eq!(jobs.len(), 3);
    let mut produced = Vec::new();
    for mut job in jobs {
        while let Some(pixel) = job.next_pixel() {
            produced.push(pixel);
        }
    }
    let mut expected = Vec::new();
    for y in 0..3 {
        for x in 0..5 {
            expected.push((x, y));
        }
    }
    assert_eq!(produced, expected);
}

#[test]
fn plan_rows_of_an_empty_image() {
    assert_eq!(plan_rows(300, 0).len(), 0);
    let jobs = plan_rows(0, 4);
    assert_eq!(jobs.len(), 4);
    for mut job in jobs {
        assert_eq!(job.next_pixel(), None);
    }
}

#[test]
fn plan_rows_covers_the_standard_picture_exactly_once() {
    let mut seen = HashSet::new();
    let mut produced = 0u32;
    for (row, mut job) in plan_rows(WIDTH, HEIGHT).into_iter().enumerate() {
        let mut column = 0;
        while let Some((x, y)) = job.next_pixel() {
            assert_eq!(x, column);
            assert_eq!(y as usize, row);
            assert!(x < WIDTH && y < HEIGHT);
            assert!(seen.insert((x, y)));
            produced += 1;
            column += 1;
        }
        assert_eq!(column, WIDTH);
    }
    assert_eq!(produced, WIDTH * HEIGHT);
    assert_eq!(produced, 90_000);
}

#[test]
fn worker_count_is_two_per_core() {
    assert_eq!(worker_count(1), Some(2));
    assert_eq!(worker_count(4), Some(8));
    assert_eq!(worker_count(64), Some(128));
}

#[test]
fn worker_count_refuses_what_no_pool_can_have() {
    assert_eq!(worker_count(0), None);
    assert_eq!(worker_count(usize::MAX), None);
    assert_eq!(worker_count(usize::MAX / 2 + 1), None);
    assert_eq!(worker_count(usize::MAX / 2), Some(usize::MAX - 1));
}

#[test]
fn pool_size_is_twice_the_logical_cores() {
    let cores = num_cpus::get();
    assert!(cores >= 1);
    assert_eq!(pool_size(), worker_count(cores));
    assert_eq!(pool_size(), Some(2 * cores));
}

#[test]
fn frame_interval_is_a_sixtieth_of_a_second() {
    assert_eq!(FRAMES_PER_SECOND, 60);
    assert_eq!(FRAME_INTERVAL_NANOS, 16_666_666);
    assert_eq!(FRAME_INTERVAL_NANOS, 1_000_000_000 / FRAMES_PER_SECOND);
}

#[test]
fn frame_elapsed_turns_at_the_interval() {
    assert!(!frame_elapsed(0));
    assert!(!frame_elapsed(16_666_665));
    assert!(frame_elapsed(16_666_666));
    assert!(frame_elapsed(16_666_667));
    assert!(frame_elapsed(u128::MAX));
}

#[test]
fn pause_after_send_rests_one_frame_after_a_refusal() {
    assert_eq!(pause_after_send(true), None);
    assert_eq!(pause_after_send(false), Some(16_666_666));
}

#[test]
fn refused_pixels_are_dropped_not_offered_again() {
    // A channel with room for ten pixels and nobody draining it: the rest of
    // the scanline is lost, which is the accepted behaviour under load.
    let capacity = 10;
    let mut channel = Vec::new();
    let mut offered = Vec::new();
    let mut pauses = 0;
    let mut job = RowJob::new(0, 25);
    while let Some(pixel) = job.next_pixel() {
        offered.push(pixel);
        let delivered = channel.len() < capacity;
        if delivered {
            channel.push(pixel);
        }
        if let Some(nanos) = pause_after_send(delivered) {
            assert_eq!(nanos, FRAME_INTERVAL_NANOS);
            pauses += 1;
        }
    }
    assert_eq!(offered.len(), 25);
    assert_eq!(offered, (0..25).map(|x| (x, 0)).collect::<Vec<_>>());
    assert_eq!(channel, (0..10).map(|x| (x, 0)).collect::<Vec<_>>());
    assert_eq!(pauses, 15);
}
