//! The presentation loop as a state machine: what it does with each event it
//! is handed, and when it shows a frame.
//!
//! The loop runs until it meets a quit signal. Until that moment every pixel it
//! receives is painted; from that moment on nothing is painted and nothing is
//! shown.

use vstd::prelude::*;
use crate::pacing::{frame_elapsed, FRAME_INTERVAL_NANOS};
use crate::raster::PixelResult;

verus! {

/// The two states of the loop.
#[derive(Clone, Copy, Debug, PartialEq, Eq, Structural)]
pub enum Phase {
    /// Events are handled and frames are shown.
    Running,
    /// A quit signal was met. This state is never left.
    Terminated,
}

/// The keys the loop tells apart.
#[derive(Clone, Copy, Debug, PartialEq, Eq, Structural)]
pub enum Key {
    Escape,
    Other,
}

/// What can reach the loop.
#[derive(Clone, Copy, Debug, PartialEq, Eq, Structural)]
pub enum Event {
    /// A worker has computed a pixel.
    Pixel(PixelResult),
    /// The window was asked to close.
    Quit,
    /// A key went down.
    KeyDown(Key),
    /// Anything else.
    Other,
}

/// What the caller is to do after an event.
#[derive(Clone, Copy, Debug, PartialEq, Eq, Structural)]
pub enum Action {
    /// Set the draw colour and plot this pixel.
    Draw(PixelResult),
    /// Leave the loop.
    Exit,
    /// Nothing.
    Idle,
}

/// The event is a quit signal: a request to close, or the escape key going
/// down.
pub open spec fn is_quit(event: Event) -> bool {
    event == Event::Quit || event == Event::KeyDown(Key::Escape)
}

/// The state after `event` was handled in `phase`.
pub open spec fn next_phase(phase: Phase, event: Event) -> Phase {
    if phase == Phase::Terminated || is_quit(event) {
        Phase::Terminated
    } else {
        Phase::Running
    }
}

/// The action that handling `event` in `phase` asks for.
pub open spec fn action_for(phase: Phase, event: Event) -> Action {
    if phase == Phase::Terminated || is_quit(event) {
        Action::Exit
    } else {
        match event {
            Event::Pixel(pixel) => Action::Draw(pixel),
            _ => Action::Idle,
        }
    }
}

/// The state after `events` were handled one after the other, starting in
/// `phase`.
pub open spec fn phase_after(phase: Phase, events: Seq<Event>) -> Phase
    decreases events.len(),
{
    if events.len() == 0 {
        phase
    } else {
        next_phase(phase_after(phase, events.drop_last()), events.last())
    }
}

/// The pixels painted while `events` were handled one after the other,
/// starting in `phase`, in the order they were painted.
pub open spec fn painted(phase: Phase, events: Seq<Event>) -> Seq<PixelResult>
    decreases events.len(),
{
    if events.len() == 0 {
        Seq::empty()
    } else {
        let earlier = painted(phase, events.drop_last());
        match action_for(phase_after(phase, events.drop_last()), events.last()) {
            Action::Draw(pixel) => earlier.push(pixel),
            _ => earlier,
        }
    }
}

/// The pixels among `events`, in the order they arrived.
pub open spec fn pixels_of(events: Seq<Event>) -> Seq<PixelResult>
    decreases events.len(),
{
    if events.len() == 0 {
        Seq::empty()
    } else {
        match events.last() {
            Event::Pixel(pixel) => pixels_of(events.drop_last()).push(pixel),
            _ => pixels_of(events.drop_last()),
        }
    }
}

/// A frame is shown after a loop iteration that took `elapsed_nanos`
/// nanoseconds and ended in `phase`.
pub open spec fn presents(phase: Phase, elapsed_nanos: u128) -> bool {
    phase == Phase::Running && elapsed_nanos >= FRAME_INTERVAL_NANOS
}

/// The loop is running after `events` exactly if it was running before and
/// none of them is a quit signal.
pub proof fn lemma_running_means_no_quit(phase: Phase, events: Seq<Event>)
    ensures
        phase_after(phase, events) == Phase::Running <==> {
            &&& phase == Phase::Running
            &&& forall|i: int| 0 <= i < events.len() ==> !is_quit(events[i])
        },
    decreases events.len(),
{
    if events.len() > 0 {
        let earlier = events.drop_last();
        lemma_running_means_no_quit(phase, earlier);
        if phase_after(phase, events) == Phase::Running {
            assert forall|i: int| 0 <= i < events.len() implies !is_quit(events[i]) by {
                if i < earlier.len() {
                    assert(events[i] == earlier[i]);
                }
            }
        } else if phase == Phase::Running && phase_after(phase, earlier) == Phase::Running {
            assert(is_quit(events[events.len() - 1]));
        } else if phase == Phase::Running {
            let i = choose|i: int| 0 <= i < earlier.len() && is_quit(earlier[i]);
            assert(is_quit(events[i]));
        }
    }
}

/// The terminated state is final: whatever arrives, the loop stays
/// terminated and paints nothing.
pub proof fn lemma_terminated_is_final(events: Seq<Event>)
    ensures
        phase_after(Phase::Terminated, events) == Phase::Terminated,
        painted(Phase::Terminated, events) == Seq::<PixelResult>::empty(),
    decreases events.len(),
{
    if events.len() > 0 {
        lemma_terminated_is_final(events.drop_last());
    }
}

/// Handling `first` and after it `second` is handling the two in one run.
pub proof fn lemma_run_in_two_parts(phase: Phase, first: Seq<Event>, second: Seq<Event>)
    ensures
        phase_after(phase, first + second) == phase_after(phase_after(phase, first), second),
        painted(phase, first + second)
            == painted(phase, first) + painted(phase_after(phase, first), second),
    decreases second.len(),
{
    let whole = first + second;
    if second.len() == 0 {
        assert(whole == first);
        assert(painted(phase, first) + Seq::<PixelResult>::empty() == painted(phase, first));
    } else {
        assert(whole.drop_last() == first + second.drop_last());
        assert(whole.last() == second.last());
        lemma_run_in_two_parts(phase, first, second.drop_last());
        let earlier = painted(phase_after(phase, first), second.drop_last());
        match action_for(phase_after(phase, whole.drop_last()), whole.last()) {
            Action::Draw(pixel) => {
                assert((painted(phase, first) + earlier).push(pixel)
                    == painted(phase, first) + earlier.push(pixel));
            },
            _ => {},
        }
    }
}

/// A quit signal ends the loop at once: the loop is terminated after it,
/// and of the events that were waiting behind it none is painted.
pub proof fn lemma_quit_terminates(
    phase: Phase,
    before: Seq<Event>,
    quit: Event,
    waiting: Seq<Event>,
)
    requires
        is_quit(quit),
    ensures
        phase_after(phase, before.push(quit) + waiting) == Phase::Terminated,
        painted(phase, before.push(quit) + waiting) == painted(phase, before),
{
    let upto = before.push(quit);
    assert(upto.drop_last() == before);
    assert(upto.last() == quit);
    lemma_run_in_two_parts(phase, upto, waiting);
    lemma_terminated_is_final(waiting);
    assert(painted(phase, before) + Seq::<PixelResult>::empty() == painted(phase, before));
}

/// While no quit signal arrives, every pixel received is painted, in the
/// order of arrival.
pub proof fn lemma_paints_all_while_running(events: Seq<Event>)
    requires
        forall|i: int| 0 <= i < events.len() ==> !is_quit(events[i]),
    ensures
        painted(Phase::Running, events) == pixels_of(events),
    decreases events.len(),
{
    if events.len() > 0 {
        let earlier = events.drop_last();
        assert forall|i: int| 0 <= i < earlier.len() implies !is_quit(earlier[i]) by {
            assert(earlier[i] == events[i]);
        }
        lemma_paints_all_while_running(earlier);
        lemma_running_means_no_quit(Phase::Running, earlier);
        assert(!is_quit(events[events.len() - 1]));
    }
}

/// Only pixels that were received are painted.
pub proof fn lemma_painted_were_received(phase: Phase, events: Seq<Event>)
    ensures
        forall|i: int|
            0 <= i < painted(phase, events).len()
                ==> events.contains(Event::Pixel(#[trigger] painted(phase, events)[i])),
    decreases events.len(),
{
    if events.len() > 0 {
        let earlier = events.drop_last();
        lemma_painted_were_received(phase, earlier);
        let shown = painted(phase, events);
        assert forall|i: int| 0 <= i < shown.len() implies events.contains(
            Event::Pixel(#[trigger] shown[i]),
        ) by {
            let pixel = painted(phase, events)[i];
            if i < painted(phase, earlier).len() {
                assert(painted(phase, earlier)[i] == pixel);
                let j = choose|j: int| 0 <= j < earlier.len() && earlier[j] == Event::Pixel(pixel);
                assert(events[j] == Event::Pixel(pixel));
            } else {
                assert(events[events.len() - 1] == Event::Pixel(pixel));
            }
        }
    }
}

/// Where every pixel received lies on the image, every pixel painted does.
pub proof fn lemma_paints_inside(phase: Phase, events: Seq<Event>, width: u32, height: u32)
    requires
        forall|i: int, pixel: PixelResult|
            0 <= i < events.len() && events[i] == Event::Pixel(pixel)
                ==> pixel.inside(width, height),
    ensures
        forall|i: int|
            0 <= i < painted(phase, events).len()
                ==> (#[trigger] painted(phase, events)[i]).inside(width, height),
{
    let shown = painted(phase, events);
    lemma_painted_were_received(phase, events);
    assert forall|i: int| 0 <= i < shown.len() implies (#[trigger] shown[i]).inside(
        width,
        height,
    ) by {
        let pixel = shown[i];
        assert(events.contains(Event::Pixel(pixel)));
        let j = choose|j: int| 0 <= j < events.len() && events[j] == Event::Pixel(pixel);
        assert(events[j] == Event::Pixel(pixel));
    }
}

/// The presentation loop.
pub struct Presenter {
    phase: Phase,
    handled: Ghost<Seq<Event>>,
}

impl Presenter {
    /// The state is the one that the events handled so far lead to.
    #[verifier::type_invariant]
    pub closed spec fn wf(self) -> bool {
        self.phase == phase_after(Phase::Running, self.handled@)
    }

    /// The events handled so far, oldest first.
    pub closed spec fn history(self) -> Seq<Event> {
        self.handled@
    }

    /// The state of the loop.
    pub open spec fn phase(self) -> Phase {
        phase_after(Phase::Running, self.history())
    }

    /// The loop holds nothing but what it has handled: two loops with the
    /// same history are the same loop.
    pub proof fn lemma_no_hidden_state(self, other: Self)
        requires
            self.wf(),
            other.wf(),
            self.history() == other.history(),
        ensures
            self == other,
    {
    }

    /// The loop has ended exactly if a quit signal is among the events it
    /// has handled.
    pub proof fn lemma_ended_by_quit_only(self)
        requires
            self.wf(),
        ensures
            self.phase() == Phase::Terminated
                <==> exists|i: int| 0 <= i < self.history().len() && is_quit(self.history()[i]),
    {
        lemma_running_means_no_quit(Phase::Running, self.history());
    }

    /// A running loop that has handled nothing.
    pub fn new() -> (presenter: Self)
        ensures
            presenter.history() == Seq::<Event>::empty(),
            presenter.phase() == Phase::Running,
    {
        Presenter { phase: Phase::Running, handled: Ghost(Seq::empty()) }
    }

    /// Whether the loop goes on.
    pub fn is_running(&self) -> (running: bool)
        ensures
            running == (self.phase() == Phase::Running),
    {
        proof {
            use_type_invariant(self);
        }
        self.phase == Phase::Running
    }

    /// Handles one event: a pixel is painted, a quit signal ends the loop,
    /// anything else is passed over. Once the loop has ended, every event is
    /// answered with `Exit`.
    pub fn handle(&mut self, event: Event) -> (action: Action)
        ensures
            final(self).history() == old(self).history().push(event),
            final(self).phase() == next_phase(old(self).phase(), event),
            action == action_for(old(self).phase(), event),
    {
        proof {
            use_type_invariant(&*self);
            assert(self.handled@.push(event).drop_last() =~= self.handled@);
        }
        let quit = match event {
            Event::Quit => true,
            Event::KeyDown(Key::Escape) => true,
            _ => false,
        };
        if self.phase == Phase::Terminated || quit {
            *self = Presenter { phase: Phase::Terminated, handled: Ghost(self.handled@.push(event)) };
            Action::Exit
        } else {
            *self = Presenter { phase: Phase::Running, handled: Ghost(self.handled@.push(event)) };
            match event {
                Event::Pixel(pixel) => Action::Draw(pixel),
                _ => Action::Idle,
            }
        }
    }

    /// Whether to show a frame at the end of a loop iteration that has taken
    /// `elapsed_nanos` nanoseconds: only while running, and only once a
    /// whole frame interval has gone by.
    pub fn frame_due(&self, elapsed_nanos: u128) -> (due: bool)
        ensures
            due == presents(self.phase(), elapsed_nanos),
    {
        proof {
            use_type_invariant(self);
        }
        self.phase == Phase::Running && frame_elapsed(elapsed_nanos)
    }
}

} // verus!
