//! The surface session: the state machine that owns the configured
//! dimensions, the event queue, the input-capability state and the buffer
//! pool, and decides each step of the cooperative event loop.  The loop
//! itself — protocol I/O, the bounded poll wait — runs outside the
//! library and consults these decisions.

use vstd::prelude::*;
use crate::canvas::Canvas;
use crate::config::Modifiers;
use crate::config::Opts;
use crate::events::Event;
use crate::events::EventQueue;
use crate::events::InputState;
use crate::pool::BufferPool;
use crate::pool::FrameBuffer;

verus! {

/// Where in its lifecycle the session stands.
#[derive(Clone, Copy, Debug, PartialEq, Eq, Structural)]
pub enum Phase {
    Connecting,
    Negotiating,
    Configuring,
    Running,
    Closing,
    Terminated,
}

/// Width or height a configure notification falls back to when the
/// compositor proposes zero.
pub const FALLBACK_SIZE: u32 = 256;

/// The session state machine.
pub struct LayerState {
    pub phase: Phase,
    pub should_exit: bool,
    pub first_configure: bool,
    pub width: u32,
    pub height: u32,
    pub exclusive_zone: i32,
    pub queue: EventQueue,
    pub input: InputState,
    pub modifiers: Modifiers,
    pub pool: BufferPool,
}

impl LayerState {
    /// Everything the tick loop leaves untouched while it drains events.
    pub open spec fn same_except_exit_and_queue(self, other: LayerState) -> bool {
        &&& self.phase == other.phase
        &&& self.first_configure == other.first_configure
        &&& self.width == other.width
        &&& self.height == other.height
        &&& self.exclusive_zone == other.exclusive_zone
        &&& self.input == other.input
        &&& self.modifiers == other.modifiers
        &&& self.pool == other.pool
    }
}

/// The events the tick loop hands to the handler, in order: the whole
/// batch when nothing asks to exit, otherwise the prefix through the
/// first event after whose handling the exit flag is set.
pub open spec fn spec_handled_prefix(events: Seq<Event>, exiting: bool) -> Seq<Event>
    decreases events.len(),
{
    if events.len() == 0 {
        Seq::empty()
    } else if exiting || events[0] is Exit {
        seq![events[0]]
    } else {
        seq![events[0]] + spec_handled_prefix(events.drop_first(), false)
    }
}

/// The exit flag after one tick drains a batch.
pub open spec fn spec_exit_after(events: Seq<Event>, exiting: bool) -> bool
    decreases events.len(),
{
    if events.len() == 0 {
        exiting
    } else if exiting || events[0] is Exit {
        true
    } else {
        spec_exit_after(events.drop_first(), false)
    }
}

/// Whether the handled prefix of a batch holds an exit event — whether
/// this tick moves the session into its closing phase.
pub open spec fn spec_closed_during(events: Seq<Event>, exiting: bool) -> bool
    decreases events.len(),
{
    if events.len() == 0 {
        false
    } else if events[0] is Exit {
        true
    } else if exiting {
        false
    } else {
        spec_closed_during(events.drop_first(), false)
    }
}

impl LayerState {
    /// A fresh session, as surface negotiation leaves it: waiting for the
    /// first configure notification, with nothing queued, no input
    /// devices and no outstanding buffer.
    pub fn new(opts: &Opts) -> (r: LayerState)
        ensures
            r.phase == Phase::Configuring,
            !r.should_exit,
            r.first_configure,
            r.width == opts.width,
            r.height == opts.height,
            r.exclusive_zone == opts.exclusive_zone,
            r.queue@ == Seq::<Event>::empty(),
            r.input == (InputState { keyboard: false, pointer: false, keyboard_focus: false }),
            r.modifiers == (Modifiers { control: false, shift: false, alt: false, meta: false }),
            !r.pool.is_outstanding(),
    {
        LayerState {
            phase: Phase::Configuring,
            should_exit: false,
            first_configure: true,
            width: opts.width,
            height: opts.height,
            exclusive_zone: opts.exclusive_zone,
            queue: EventQueue::new(),
            input: InputState::new(),
            modifiers: Modifiers { control: false, shift: false, alt: false, meta: false },
            pool: BufferPool::new(),
        }
    }

    /// Appends one event to the queue, for protocol callbacks.
    pub fn push_event(&mut self, e: Event)
        ensures
            final(self).queue@ == old(self).queue@.push(e),
            final(self).should_exit == old(self).should_exit,
            old(self).same_except_exit_and_queue(*final(self)),
    {
        self.queue.push(e);
    }

    /// Applies a size-confirmation notification: a proposed zero falls
    /// back to the default edge, and only the first confirmation asks for
    /// an immediate draw — later ones leave drawing to frame
    /// notifications.
    pub fn configure(&mut self, proposed_width: u32, proposed_height: u32) -> (draw_now: bool)
        ensures
            final(self).width == (if proposed_width == 0 {
                FALLBACK_SIZE
            } else {
                proposed_width
            }),
            final(self).height == (if proposed_height == 0 {
                FALLBACK_SIZE
            } else {
                proposed_height
            }),
            final(self).width > 0 && final(self).height > 0,
            draw_now == old(self).first_configure,
            !final(self).first_configure,
            final(self).phase == (if old(self).first_configure {
                Phase::Running
            } else {
                old(self).phase
            }),
            final(self).should_exit == old(self).should_exit,
            final(self).queue@ == old(self).queue@,
            final(self).exclusive_zone == old(self).exclusive_zone,
            final(self).input == old(self).input,
            final(self).modifiers == old(self).modifiers,
            final(self).pool == old(self).pool,
    {
        self.width = if proposed_width == 0 {
            FALLBACK_SIZE
        } else {
            proposed_width
        };
        self.height = if proposed_height == 0 {
            FALLBACK_SIZE
        } else {
            proposed_height
        };
        if self.first_configure {
            self.first_configure = false;
            self.phase = Phase::Running;
            true
        } else {
            false
        }
    }

    /// Records a compositor-initiated close: an exit event is enqueued
    /// and the termination flag is raised at once, so the loop returns
    /// within its current poll interval.
    pub fn closed(&mut self)
        ensures
            final(self).queue@ == old(self).queue@.push(Event::Exit),
            final(self).should_exit,
            final(self).phase == Phase::Closing,
            final(self).first_configure == old(self).first_configure,
            final(self).width == old(self).width,
            final(self).height == old(self).height,
            final(self).exclusive_zone == old(self).exclusive_zone,
            final(self).input == old(self).input,
            final(self).modifiers == old(self).modifiers,
            final(self).pool == old(self).pool,
    {
        self.queue.push(Event::Exit);
        self.should_exit = true;
        self.phase = Phase::Closing;
    }

    /// Requests termination from the application side: an exit event is
    /// enqueued and the next drain observes it.  Calling it again only
    /// queues another exit event, which changes nothing further.
    pub fn exit(&mut self)
        ensures
            final(self).queue@ == old(self).queue@.push(Event::Exit),
            final(self).should_exit == old(self).should_exit,
            old(self).same_except_exit_and_queue(*final(self)),
    {
        self.queue.push(Event::Exit);
    }

    /// Applies one event to the session: an exit event raises the
    /// termination flag, every other event leaves the session unchanged
    /// (the application layer does the reporting).
    pub fn handle_event(&mut self, event: Event)
        ensures
            final(self).should_exit == (old(self).should_exit || event is Exit),
            final(self).queue@ == old(self).queue@,
            final(self).phase == (if event is Exit {
                Phase::Closing
            } else {
                old(self).phase
            }),
            final(self).first_configure == old(self).first_configure,
            final(self).width == old(self).width,
            final(self).height == old(self).height,
            final(self).exclusive_zone == old(self).exclusive_zone,
            final(self).input == old(self).input,
            final(self).modifiers == old(self).modifiers,
            final(self).pool == old(self).pool,
    {
        match event {
            Event::Exit => {
                self.should_exit = true;
                self.phase = Phase::Closing;
            },
            _ => {},
        }
    }

    /// One scheduler tick: swaps the queue for an empty one and handles
    /// the batch in strict arrival order, stopping after the first event
    /// that leaves the termination flag raised.  The result is the
    /// handled prefix, for the application layer to report, and whether
    /// the loop must now return.
    pub fn process_tick(&mut self) -> (r: (Vec<Event>, bool))
        ensures
            r.0@ == spec_handled_prefix(old(self).queue@, old(self).should_exit),
            r.1 == (old(self).queue@.len() > 0 && spec_exit_after(
                old(self).queue@,
                old(self).should_exit,
            )),
            final(self).should_exit == spec_exit_after(old(self).queue@, old(self).should_exit),
            final(self).queue@ == Seq::<Event>::empty(),
            final(self).phase == (if spec_closed_during(old(self).queue@, old(self).should_exit) {
                Phase::Closing
            } else {
                old(self).phase
            }),
            final(self).first_configure == old(self).first_configure,
            final(self).width == old(self).width,
            final(self).height == old(self).height,
            final(self).exclusive_zone == old(self).exclusive_zone,
            final(self).input == old(self).input,
            final(self).modifiers == old(self).modifiers,
            final(self).pool == old(self).pool,
    {
        let ghost init_exiting = self.should_exit;
        let ghost init_phase = self.phase;
        let events: Vec<Event> = self.queue.take_all();
        let mut handled: Vec<Event> = Vec::new();
        let mut stop: bool = false;
        let mut i: usize = 0;
        proof {
            assert(events@.skip(0) =~= events@);
            assert(handled@ + spec_handled_prefix(events@, init_exiting)
                =~= spec_handled_prefix(events@, init_exiting));
        }
        while i < events.len() && !stop
            invariant
                0 <= i <= events@.len(),
                self.queue@ == Seq::<Event>::empty(),
                old(self).same_except_exit_and_queue(
                    LayerState { phase: old(self).phase, ..*self },
                ),
                handled@ == events@.take(i as int),
                i == 0 ==> !stop && self.should_exit == init_exiting && self.phase == init_phase,
                i > 0 ==> stop == self.should_exit,
                !stop ==> self.phase == init_phase,
                !stop ==> spec_handled_prefix(events@, init_exiting) == handled@
                    + spec_handled_prefix(
                    events@.skip(i as int),
                    if i == 0 {
                        init_exiting
                    } else {
                        false
                    },
                ),
                !stop ==> spec_exit_after(events@, init_exiting) == spec_exit_after(
                    events@.skip(i as int),
                    if i == 0 {
                        init_exiting
                    } else {
                        false
                    },
                ),
                !stop ==> spec_closed_during(events@, init_exiting) == spec_closed_during(
                    events@.skip(i as int),
                    if i == 0 {
                        init_exiting
                    } else {
                        false
                    },
                ),
                stop ==> spec_handled_prefix(events@, init_exiting) == handled@,
                stop ==> spec_exit_after(events@, init_exiting) == true,
                stop ==> self.should_exit,
                stop ==> self.phase == (if spec_closed_during(events@, init_exiting) {
                    Phase::Closing
                } else {
                    init_phase
                }),
            decreases events@.len() - i,
        {
            let ghost pre_exiting = if i == 0 {
                init_exiting
            } else {
                false
            };
            let ghost rest = events@.skip(i as int);
            proof {
                assert(rest.len() > 0);
                assert(rest[0] == events@[i as int]);
                assert(rest.drop_first() =~= events@.skip(i as int + 1));
            }
            let e: Event = events[i];
            self.handle_event(e);
            handled.push(e);
            i = i + 1;
            stop = self.should_exit;
            proof {
                assert(handled@ =~= events@.take(i as int));
                if !stop {
                    assert(handled@ + spec_handled_prefix(events@.skip(i as int), false)
                        =~= (handled@.drop_last() + (seq![e] + spec_handled_prefix(
                        events@.skip(i as int),
                        false,
                    ))));
                    assert(handled@.drop_last() =~= events@.take(i as int - 1));
                }
            }
        }
        proof {
            if !stop {
                assert(i == events@.len());
                assert(events@.skip(i as int) =~= Seq::<Event>::empty());
                assert(handled@ + Seq::<Event>::empty() =~= handled@);
            }
            if events@.len() == 0 {
                assert(handled@ =~= Seq::<Event>::empty());
            }
        }
        (handled, stop)
    }
}

/// The background grey every frame is cleared to before the script
/// draws.
pub const BACKGROUND_COLOUR: u32 = 0xFF707070;

/// A region of the buffer the compositor must re-composite.
#[derive(Clone, Copy, Debug, PartialEq, Eq, Structural)]
pub struct DamageRect {
    pub x: i32,
    pub y: i32,
    pub width: u32,
    pub height: u32,
}

/// The instantaneous frame rate derived from the wall-clock time since
/// the previous draw, in whole frames per second.
pub open spec fn spec_frame_rate(elapsed_ms: u32) -> u32 {
    if elapsed_ms == 0 {
        1000u32
    } else {
        (1000u32 / elapsed_ms) as u32
    }
}

/// Derives the frames-per-second figure for the diagnostics overlay from
/// the milliseconds elapsed since the previous draw.
pub fn frame_rate(elapsed_ms: u32) -> (r: u32)
    ensures
        r == spec_frame_rate(elapsed_ms),
{
    if elapsed_ms == 0 {
        1000
    } else {
        1000 / elapsed_ms
    }
}

impl LayerState {
    /// Starts one draw cycle: acquires a buffer sized to the current
    /// surface and wraps it as a canvas cleared to the background grey,
    /// with fresh drawing state.  While the previous buffer is still
    /// outstanding with the compositor, no canvas is handed out and the
    /// session is left untouched.
    pub fn begin_frame(&mut self) -> (r: Option<Canvas>)
        requires
            old(self).width * old(self).height <= usize::MAX,
        ensures
            r is Some <==> crate::pool::spec_can_acquire(old(self).pool),
            r is None ==> *final(self) == *old(self),
            final(self).should_exit == old(self).should_exit,
            final(self).queue@ == old(self).queue@,
            final(self).phase == old(self).phase,
            final(self).first_configure == old(self).first_configure,
            final(self).width == old(self).width,
            final(self).height == old(self).height,
            final(self).exclusive_zone == old(self).exclusive_zone,
            final(self).input == old(self).input,
            final(self).modifiers == old(self).modifiers,
            r is Some ==> final(self).pool == crate::pool::spec_after_acquire(old(self).pool),
            match r {
                Some(c) => {
                    &&& c.wf()
                    &&& c.width == old(self).width
                    &&& c.height == old(self).height
                    &&& forall|i: int|
                        0 <= i < c.pixels@.len() ==> c.pixels@[i] == BACKGROUND_COLOUR
                    &&& c.path@ == Seq::<crate::canvas::PathSeg>::empty()
                    &&& c.paint == (crate::canvas::Paint {
                        color: 0xFF000000u32,
                        style: crate::canvas::PaintStyle::Fill,
                        stroke_width: 1u32,
                        anti_alias: true,
                    })
                    &&& c.tx == 0 && c.ty == 0 && c.sx_milli == 1000 && c.sy_milli == 1000
                },
                None => true,
            },
    {
        match self.pool.acquire(self.width, self.height) {
            None => None,
            Some(buffer) => {
                let mut canvas = Canvas::new(self.width, self.height, buffer.pixels);
                canvas.clear(BACKGROUND_COLOUR);
                Some(canvas)
            },
        }
    }

    /// Ends one draw cycle: takes the canvas back, marks the whole
    /// surface as damaged, and submits the buffer, ending its
    /// outstanding window.  The pixel words are handed on for the caller
    /// to attach and commit.
    pub fn finish_frame(&mut self, canvas: Canvas) -> (r: (Vec<u32>, DamageRect))
        requires
            old(self).pool.is_outstanding(),
        ensures
            final(self).pool == crate::pool::spec_after_submit(old(self).pool),
            !final(self).pool.is_outstanding(),
            final(self).should_exit == old(self).should_exit,
            final(self).queue@ == old(self).queue@,
            final(self).phase == old(self).phase,
            final(self).first_configure == old(self).first_configure,
            final(self).width == old(self).width,
            final(self).height == old(self).height,
            final(self).exclusive_zone == old(self).exclusive_zone,
            final(self).input == old(self).input,
            final(self).modifiers == old(self).modifiers,
            r.0@ == canvas.pixels@,
            r.1 == (DamageRect {
                x: 0,
                y: 0,
                width: old(self).width,
                height: old(self).height,
            }),
    {
        let width: u32 = self.width;
        let height: u32 = self.height;
        let pixels: Vec<u32> = canvas.into_pixels();
        let buffer = FrameBuffer { width, height, pixels };
        let out: Vec<u32> = self.pool.submit(buffer);
        proof {
            crate::pool::lemma_pool_transitions(old(self).pool);
        }
        (out, DamageRect { x: 0, y: 0, width, height })
    }
}

impl LayerState {
    /// Marks the session as torn down, once the loop has returned.
    pub fn terminate(&mut self)
        ensures
            *final(self) == (LayerState { phase: Phase::Terminated, ..*old(self) }),
    {
        self.phase = Phase::Terminated;
    }
}

/// Event draining is first-in first-out and exhaustive: a batch with no
/// exit event, drained while nothing asks to exit, is handled whole and
/// in exact arrival order, and the tick does not terminate the loop.
pub proof fn lemma_drain_fifo_exhaustive(events: Seq<Event>)
    requires
        forall|i: int| 0 <= i < events.len() ==> !(#[trigger] events[i] is Exit),
    ensures
        spec_handled_prefix(events, false) == events,
        !spec_exit_after(events, false),
    decreases events.len(),
{
    if events.len() == 0 {
        assert(spec_handled_prefix(events, false) =~= events);
    } else {
        assert(forall|i: int| 0 <= i < events.drop_first().len()
            ==> !(#[trigger] events.drop_first()[i] is Exit)) by {
            assert(forall|i: int| 0 <= i < events.drop_first().len()
                ==> events.drop_first()[i] == events[i + 1]);
        }
        lemma_drain_fifo_exhaustive(events.drop_first());
        assert(spec_handled_prefix(events, false) =~= events);
    }
}

/// A compositor close leaves an exit event in the queue and the flag
/// raised, so the very next tick reports that the loop must return —
/// before any further frame is drawn.
pub proof fn lemma_close_observed_next_tick(queued: Seq<Event>)
    ensures
        spec_exit_after(queued.push(Event::Exit), true),
        queued.push(Event::Exit).len() > 0,
{
}

} // verus!
