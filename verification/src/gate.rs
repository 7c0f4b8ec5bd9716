//! The batch focus gate and the focus tracker it silences.
//!
//! Focusing a window is a request; the focus event that answers it arrives
//! later. While a batch raise is under way, and for a while after it, such
//! events must not reorder the session. The raise opens the focus gate first
//! and its caller closes it once the reset delay has passed.

use vstd::prelude::*;
use crate::order::{updated, SessionOrder};

verus! {

/// One flag: set while focus events are to be ignored.
#[derive(Debug)]
pub struct BatchFocusGate {
    pub batching: bool,
}

impl View for BatchFocusGate {
    type V = bool;

    open spec fn view(&self) -> bool {
        self.batching
    }
}

/// What can happen to a focus gate.
#[derive(Debug, PartialEq, Eq, Structural, Clone, Copy)]
pub enum GateEvent {
    /// A batch raise begins.
    Begin,
    /// A reset that an earlier raise scheduled comes due.
    Reset,
}

/// The flag after one event.
pub open spec fn gate_after(open: bool, event: GateEvent) -> bool {
    match event {
        GateEvent::Begin => true,
        GateEvent::Reset => false,
    }
}

/// The flag after a run of events.
pub open spec fn gate_after_all(open: bool, events: Seq<GateEvent>) -> bool
    decreases events.len(),
{
    if events.len() == 0 {
        open
    } else {
        gate_after(gate_after_all(open, events.drop_last()), events.last())
    }
}

/// Raises may overlap and every scheduled reset fires: however the begins and
/// resets interleave, the flag is what the last event made it, so once the last
/// reset has fired the focus gate is closed.
pub proof fn lemma_gate_follows_last_event(open: bool, events: Seq<GateEvent>)
    requires
        events.len() > 0,
    ensures
        gate_after_all(open, events) == (events.last() is Begin),
{
}

impl BatchFocusGate {
    /// A closed gate: focus events count.
    pub fn new() -> (gate: Self)
        ensures
            !gate@,
    {
        BatchFocusGate { batching: false }
    }

    /// Whether focus events are being ignored.
    pub fn is_open(&self) -> (open: bool)
        ensures
            open == self@,
    {
        self.batching
    }

    /// Opens this gate, whether or not it was open already.
    pub fn begin_batch(&mut self)
        ensures
            final(self)@,
            final(self)@ == gate_after(old(self)@, GateEvent::Begin),
    {
        self.batching = true;
    }

    /// Closes this gate. The caller runs this when a scheduled reset comes due.
    pub fn end_batch(&mut self)
        ensures
            !final(self)@,
            final(self)@ == gate_after(old(self)@, GateEvent::Reset),
    {
        self.batching = false;
    }

    /// Applies one event.
    pub fn apply(&mut self, event: GateEvent)
        ensures
            final(self)@ == gate_after(old(self)@, event),
    {
        match event {
            GateEvent::Begin => self.begin_batch(),
            GateEvent::Reset => self.end_batch(),
        }
    }
}

/// How long after a batch raise its gate is to be closed again, in
/// milliseconds. The delay has to outlast the slowest focus event; it is a
/// bound drawn from experience, not a guarantee.
pub fn reset_delay_ms() -> (ms: u64)
    ensures
        ms == 500,
{
    500
}

/// A window of the note `id` gained the focus. With a closed gate the note
/// becomes the most recently used one; with an open gate nothing happens.
/// The result says whether the order was updated and is to be stored again.
pub fn focus_gained(gate: &BatchFocusGate, order: &mut SessionOrder, id: String) -> (recorded:
    bool)
    ensures
        recorded == !gate@,
        gate@ ==> final(order)@ == old(order)@,
        !gate@ ==> final(order)@ == updated(old(order)@, id@, false),
        old(order).is_unique() ==> final(order).is_unique(),
{
    if gate.is_open() {
        false
    } else {
        order.update_order(id, false);
        true
    }
}

} // verus!
