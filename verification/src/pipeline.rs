//! The renderer end to end: what reaches the screen when every scanline job
//! runs to its end and no pixel is lost on the way, in whatever order the
//! workers deliver.

use vstd::prelude::*;
use crate::presenter::{
    is_quit, lemma_paints_all_while_running, lemma_running_means_no_quit, painted, phase_after,
    pixels_of, Event, Phase,
};
use crate::raster::{grid_coordinates, lemma_grid_exactly_once, PixelResult, Rgb};

verus! {

/// `order` lists every coordinate of the image once and nothing else.
pub open spec fn covers_image(order: Seq<(u32, u32)>, width: u32, height: u32) -> bool {
    &&& order.no_duplicates()
    &&& forall|x: u32, y: u32| order.contains((x, y)) <==> (x < width && y < height)
}

/// The pixel that a worker sends for coordinate `at` when `shade` gives the
/// colours.
pub open spec fn pixel_at(at: (u32, u32), shade: spec_fn(u32, u32) -> Rgb) -> PixelResult {
    PixelResult { x: at.0, y: at.1, color: shade(at.0, at.1) }
}

/// The events that reach the loop when the coordinates are delivered in
/// `order`.
pub open spec fn pixel_events(
    order: Seq<(u32, u32)>,
    shade: spec_fn(u32, u32) -> Rgb,
) -> Seq<Event> {
    order.map_values(|at: (u32, u32)| Event::Pixel(pixel_at(at, shade)))
}

/// The scanline jobs, run one after the other, cover the image.
pub proof fn lemma_grid_covers_image(width: u32, height: u32)
    ensures
        covers_image(grid_coordinates(width, height as nat), width, height),
{
    lemma_grid_exactly_once(width, height);
}

/// Whatever covers the image has as many coordinates as the image has
/// pixels.
pub proof fn lemma_cover_len(order: Seq<(u32, u32)>, width: u32, height: u32)
    requires
        covers_image(order, width, height),
    ensures
        order.len() == width * height,
{
    let grid = grid_coordinates(width, height as nat);
    lemma_grid_exactly_once(width, height);
    assert(order.to_set() =~= grid.to_set()) by {
        assert forall|at: (u32, u32)| order.contains(at) <==> grid.contains(at) by {
            assert(order.contains((at.0, at.1)) <==> grid.contains((at.0, at.1)));
        }
    }
    order.unique_seq_to_set();
    grid.unique_seq_to_set();
}

/// Of a run of pixel events every one is found again among `pixels_of`, at
/// its own place.
pub proof fn lemma_pixels_of_pixel_events(events: Seq<Event>)
    requires
        forall|i: int| 0 <= i < events.len() ==> events[i] is Pixel,
    ensures
        pixels_of(events).len() == events.len(),
        forall|i: int| 0 <= i < events.len() ==> events[i] == Event::Pixel(pixels_of(events)[i]),
    decreases events.len(),
{
    if events.len() > 0 {
        let earlier = events.drop_last();
        assert forall|i: int| 0 <= i < earlier.len() implies earlier[i] is Pixel by {
            assert(earlier[i] == events[i]);
        }
        lemma_pixels_of_pixel_events(earlier);
        assert forall|i: int| 0 <= i < events.len() implies events[i] == Event::Pixel(
            pixels_of(events)[i],
        ) by {
            if i < earlier.len() {
                assert(earlier[i] == events[i]);
            } else {
                assert(events[i] == events.last());
            }
        }
    }
}

/// Where nothing is lost and no quit signal arrives, the loop paints the
/// whole image, in whatever order the pixels come: one pixel for every
/// coordinate, none twice, none off the image, each in the colour computed
/// for its coordinate; and the loop is still running afterwards.
pub proof fn lemma_lossless_run_paints_image(
    order: Seq<(u32, u32)>,
    width: u32,
    height: u32,
    shade: spec_fn(u32, u32) -> Rgb,
)
    requires
        covers_image(order, width, height),
    ensures
        phase_after(Phase::Running, pixel_events(order, shade)) == Phase::Running,
        painted(Phase::Running, pixel_events(order, shade)).len() == width * height,
        forall|k: int|
            0 <= k < width * height ==> {
                let pixel = #[trigger] painted(Phase::Running, pixel_events(order, shade))[k];
                &&& pixel == pixel_at(order[k], shade)
                &&& pixel.inside(width, height)
                &&& pixel.color == shade(pixel.x, pixel.y)
            },
        forall|i: int, j: int|
            0 <= i < width * height && 0 <= j < width * height && i != j
                ==> painted(Phase::Running, pixel_events(order, shade))[i].coordinate()
                != painted(Phase::Running, pixel_events(order, shade))[j].coordinate(),
        forall|x: u32, y: u32|
            x < width && y < height
                ==> painted(Phase::Running, pixel_events(order, shade)).contains(
                pixel_at((x, y), shade),
            ),
{
    let events = pixel_events(order, shade);
    let shown = painted(Phase::Running, events);
    lemma_cover_len(order, width, height);
    assert forall|i: int| 0 <= i < events.len() implies events[i] is Pixel && !is_quit(events[i]) by {
        assert(events[i] == Event::Pixel(pixel_at(order[i], shade)));
    }
    lemma_running_means_no_quit(Phase::Running, events);
    lemma_paints_all_while_running(events);
    lemma_pixels_of_pixel_events(events);
    assert forall|k: int| 0 <= k < width * height implies {
        let pixel = #[trigger] shown[k];
        &&& pixel == pixel_at(order[k], shade)
        &&& pixel.inside(width, height)
        &&& pixel.color == shade(pixel.x, pixel.y)
    } by {
        assert(events[k] == Event::Pixel(pixel_at(order[k], shade)));
        assert(events[k] == Event::Pixel(shown[k]));
        assert(order.contains(order[k]));
        assert(order.contains((order[k].0, order[k].1)));
    }
    assert forall|i: int, j: int|
        0 <= i < width * height && 0 <= j < width * height && i != j
        implies shown[i].coordinate() != shown[j].coordinate() by {
        assert(shown[i] == pixel_at(order[i], shade));
        assert(shown[j] == pixel_at(order[j], shade));
    }
    assert forall|x: u32, y: u32| x < width && y < height implies shown.contains(
        pixel_at((x, y), shade),
    ) by {
        assert(order.contains((x, y)));
        let k = choose|k: int| 0 <= k < order.len() && order[k] == (x, y);
        assert(shown[k] == pixel_at(order[k], shade));
    }
}

} // verus!
