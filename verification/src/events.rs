//! Input-event aggregation: the event type, the order-preserving queue
//! that protocol callbacks append to, and the seat-capability state that
//! decides when input devices are created and released.

use vstd::prelude::*;
use crate::config::Modifiers;

verus! {

/// An application-level event, produced by protocol callbacks and drained
/// once per scheduler tick in arrival order.  Pointer coordinates are
/// rounded to whole surface pixels, buttons and keys carry their protocol
/// codes.
#[derive(Clone, Copy, Debug, PartialEq, Eq, Structural)]
pub enum Event {
    Resized { width: u32, height: u32 },
    PointerButtonPressed { button: u32, modifiers: Modifiers },
    PointerButtonReleased { button: u32, modifiers: Modifiers },
    PointerMoved { x: i64, y: i64 },
    PointerEntered { x: i64, y: i64 },
    PointerLeft,
    KeyboardKeyPressed { key: u32, modifiers: Modifiers },
    KeyboardKeyReleased { key: u32, modifiers: Modifiers },
    KeyboardEntered,
    KeyboardLeft,
    Exit,
}

/// The shared, order-preserving event queue.  Producers append as events
/// arrive; the scheduler empties it in one step per tick, so appends
/// during a drain never corrupt the drained batch.
pub struct EventQueue {
    items: Vec<Event>,
}

impl View for EventQueue {
    type V = Seq<Event>;

    closed spec fn view(&self) -> Seq<Event> {
        self.items@
    }
}

impl EventQueue {
    pub fn new() -> (r: EventQueue)
        ensures
            r@ == Seq::<Event>::empty(),
    {
        EventQueue { items: Vec::new() }
    }

    /// Appends one event at the back of the queue.
    pub fn push(&mut self, e: Event)
        ensures
            final(self)@ == old(self)@.push(e),
    {
        self.items.push(e);
    }

    /// Swaps the live queue for an empty one and hands the whole batch
    /// out in arrival order.
    pub fn take_all(&mut self) -> (r: Vec<Event>)
        ensures
            r@ == old(self)@,
            final(self)@ == Seq::<Event>::empty(),
    {
        let mut batch: Vec<Event> = Vec::new();
        core::mem::swap(&mut batch, &mut self.items);
        batch
    }

    pub fn len(&self) -> (r: usize)
        ensures
            r == self@.len(),
    {
        self.items.len()
    }

    pub fn is_empty(&self) -> (r: bool)
        ensures
            r == (self@.len() == 0),
    {
        self.items.len() == 0
    }
}

/// An optional input service a seat may gain or lose at runtime.
#[derive(Clone, Copy, Debug, PartialEq, Eq, Structural)]
pub enum Capability {
    Keyboard,
    Pointer,
    Touch,
}

/// Which input devices the session currently holds, and whether its
/// surface has keyboard focus.
#[derive(Clone, Copy, Debug, PartialEq, Eq, Structural)]
pub struct InputState {
    pub keyboard: bool,
    pub pointer: bool,
    pub keyboard_focus: bool,
}

/// The input state after a capability announcement: a device is created
/// exactly once per capability transition, so announcing an
/// already-present capability changes nothing.
pub open spec fn spec_add_capability(s: InputState, cap: Capability) -> (InputState, bool) {
    if cap == Capability::Keyboard && !s.keyboard {
        (InputState { keyboard: true, ..s }, true)
    } else if cap == Capability::Pointer && !s.pointer {
        (InputState { pointer: true, ..s }, true)
    } else {
        (s, false)
    }
}

/// The input state after a capability removal: a device is released
/// exactly once, so removing an absent capability is a no-op.
pub open spec fn spec_remove_capability(s: InputState, cap: Capability) -> (InputState, bool) {
    if cap == Capability::Keyboard && s.keyboard {
        (InputState { keyboard: false, ..s }, true)
    } else if cap == Capability::Pointer && s.pointer {
        (InputState { pointer: false, ..s }, true)
    } else {
        (s, false)
    }
}

impl InputState {
    pub fn new() -> (r: InputState)
        ensures
            r == (InputState { keyboard: false, pointer: false, keyboard_focus: false }),
    {
        InputState { keyboard: false, pointer: false, keyboard_focus: false }
    }

    /// Records a seat capability announcement; the result says whether
    /// the caller must create the corresponding input device.
    pub fn add_capability(&mut self, cap: Capability) -> (created: bool)
        ensures
            (*final(self), created) == spec_add_capability(*old(self), cap),
    {
        if cap == Capability::Keyboard && !self.keyboard {
            self.keyboard = true;
            true
        } else if cap == Capability::Pointer && !self.pointer {
            self.pointer = true;
            true
        } else {
            false
        }
    }

    /// Records a seat capability removal; the result says whether the
    /// caller must release the corresponding input device.
    pub fn remove_capability(&mut self, cap: Capability) -> (released: bool)
        ensures
            (*final(self), released) == spec_remove_capability(*old(self), cap),
    {
        if cap == Capability::Keyboard && self.keyboard {
            self.keyboard = false;
            true
        } else if cap == Capability::Pointer && self.pointer {
            self.pointer = false;
            true
        } else {
            false
        }
    }

    /// Records a keyboard focus notification; only the session's own
    /// surface takes the focus.
    pub fn keyboard_enter(&mut self, own_surface: bool)
        ensures
            final(self).keyboard_focus == (own_surface || old(self).keyboard_focus),
            final(self).keyboard == old(self).keyboard,
            final(self).pointer == old(self).pointer,
    {
        if own_surface {
            self.keyboard_focus = true;
        }
    }

    /// Records a keyboard focus release; only a release on the session's
    /// own surface clears the focus.
    pub fn keyboard_leave(&mut self, own_surface: bool)
        ensures
            final(self).keyboard_focus == (!own_surface && old(self).keyboard_focus),
            final(self).keyboard == old(self).keyboard,
            final(self).pointer == old(self).pointer,
    {
        if own_surface {
            self.keyboard_focus = false;
        }
    }
}

/// Removing a capability that was never added leaves the input state
/// unchanged and releases no device; adding one twice behaves the same.
pub proof fn lemma_unknown_capability_removal_noop(s: InputState, cap: Capability)
    requires
        cap == Capability::Pointer ==> !s.pointer,
        cap == Capability::Keyboard ==> !s.keyboard,
    ensures
        spec_remove_capability(s, cap) == (s, false),
{
}

/// Announcing an already-present capability is equally a no-op.
pub proof fn lemma_duplicate_capability_add_noop(s: InputState, cap: Capability)
    requires
        cap == Capability::Pointer ==> s.pointer,
        cap == Capability::Keyboard ==> s.keyboard,
    ensures
        spec_add_capability(s, cap) == (s, false),
{
}

/// The shape of one raw pointer notification from the protocol layer.
#[derive(Clone, Copy, Debug, PartialEq, Eq, Structural)]
pub enum PointerEventKind {
    Enter,
    Leave,
    Motion,
    Press { button: u32 },
    Release { button: u32 },
    Axis,
}

/// One raw pointer notification: where it points, which surface it
/// targets, and what happened.
#[derive(Clone, Copy, Debug, PartialEq, Eq, Structural)]
pub struct PointerSample {
    pub own_surface: bool,
    pub x: i64,
    pub y: i64,
    pub kind: PointerEventKind,
}

/// The event a raw pointer notification turns into: notifications for
/// other surfaces are discarded at the source, axis notifications are
/// dropped, the rest map one to one.
pub open spec fn spec_route_pointer(s: PointerSample, m: Modifiers) -> Option<Event> {
    if !s.own_surface {
        None
    } else {
        match s.kind {
            PointerEventKind::Enter => Some(Event::PointerEntered { x: s.x, y: s.y }),
            PointerEventKind::Leave => Some(Event::PointerLeft),
            PointerEventKind::Motion => Some(Event::PointerMoved { x: s.x, y: s.y }),
            PointerEventKind::Press { button } => Some(
                Event::PointerButtonPressed { button, modifiers: m },
            ),
            PointerEventKind::Release { button } => Some(
                Event::PointerButtonReleased { button, modifiers: m },
            ),
            PointerEventKind::Axis => None,
        }
    }
}

/// Converts one raw pointer notification into an application event.
pub fn route_pointer_event(s: &PointerSample, modifiers: &Modifiers) -> (r: Option<Event>)
    ensures
        r == spec_route_pointer(*s, *modifiers),
{
    if !s.own_surface {
        return None;
    }
    match s.kind {
        PointerEventKind::Enter => Some(Event::PointerEntered { x: s.x, y: s.y }),
        PointerEventKind::Leave => Some(Event::PointerLeft),
        PointerEventKind::Motion => Some(Event::PointerMoved { x: s.x, y: s.y }),
        PointerEventKind::Press { button } => Some(
            Event::PointerButtonPressed { button, modifiers: *modifiers },
        ),
        PointerEventKind::Release { button } => Some(
            Event::PointerButtonReleased { button, modifiers: *modifiers },
        ),
        PointerEventKind::Axis => None,
    }
}

/// The queue contents after a whole batch of raw pointer notifications:
/// each sample's event, if it produces one, in batch order.
pub open spec fn spec_routed_batch(samples: Seq<PointerSample>, m: Modifiers) -> Seq<Event>
    decreases samples.len(),
{
    if samples.len() == 0 {
        Seq::empty()
    } else {
        let head = match spec_route_pointer(samples[0], m) {
            Some(e) => seq![e],
            None => Seq::empty(),
        };
        head + spec_routed_batch(samples.drop_first(), m)
    }
}

/// Routes a batch of raw pointer notifications into the queue, keeping
/// arrival order and discarding what targets other surfaces.
pub fn route_pointer_frame(
    queue: &mut EventQueue,
    samples: &Vec<PointerSample>,
    modifiers: &Modifiers,
)
    ensures
        final(queue)@ == old(queue)@ + spec_routed_batch(samples@, *modifiers),
{
    let ghost all = samples@;
    let mut i: usize = 0;
    while i < samples.len()
        invariant
            0 <= i <= samples.len(),
            samples@ == all,
            queue@ == old(queue)@ + spec_routed_batch(all.take(i as int), *modifiers),
        decreases samples.len() - i,
    {
        proof {
            lemma_routed_batch_snoc(all, i as int, *modifiers);
        }
        match route_pointer_event(&samples[i], modifiers) {
            Some(e) => {
                queue.push(e);
            },
            None => {},
        }
        i = i + 1;
    }
    proof {
        assert(all.take(samples@.len() as int) == all);
    }
}

/// Routing a batch one sample longer appends that sample's event.
proof fn lemma_routed_batch_snoc(samples: Seq<PointerSample>, i: int, m: Modifiers)
    requires
        0 <= i < samples.len(),
    ensures
        spec_routed_batch(samples.take(i + 1), m) == spec_routed_batch(samples.take(i), m)
            + (match spec_route_pointer(samples[i], m) {
                Some(e) => seq![e],
                None => Seq::<Event>::empty(),
            }),
    decreases i,
{
    let a = samples.take(i + 1);
    let b = samples.take(i);
    if i == 0 {
        assert(a.drop_first() =~= Seq::<PointerSample>::empty());
        assert(b =~= Seq::<PointerSample>::empty());
        assert(spec_routed_batch(a.drop_first(), m) == Seq::<Event>::empty());
        assert(a[0] == samples[0]);
        match spec_route_pointer(samples[0], m) {
            Some(e) => {
                assert(spec_routed_batch(a, m) =~= seq![e]);
            },
            None => {
                assert(spec_routed_batch(a, m) =~= Seq::<Event>::empty());
            },
        }
    } else {
        lemma_routed_batch_snoc(samples.drop_first(), i - 1, m);
        assert(a.drop_first() =~= samples.drop_first().take(i));
        assert(b.drop_first() =~= samples.drop_first().take(i - 1));
        assert(samples.drop_first()[i - 1] == samples[i]);
        assert(a[0] == samples[0]);
        assert(b[0] == samples[0]);
        match spec_route_pointer(samples[i], m) {
            Some(e) => {
                assert(spec_routed_batch(a, m) =~= spec_routed_batch(b, m) + seq![e]);
            },
            None => {
                assert(spec_routed_batch(a, m) =~= spec_routed_batch(b, m));
                assert(spec_routed_batch(b, m) =~= spec_routed_batch(b, m)
                    + Seq::<Event>::empty());
            },
        }
    }
}

} // verus!
