//! Telemetry of actors.

use vstd::prelude::*;

pub mod config;

verus! {

/// What a recorder is told of.
#[derive(Debug, Clone, Copy, PartialEq, Eq, Structural, Hash)]
pub enum PollEvent {
    /// An actor is about to be polled.
    Enter,
    /// An actor has been polled.
    Exit,
}

/// Knows when actors are polled.
pub trait Recorder: Sized {
    /// Whether `after` is the recorder right after it has been told of the event,
    /// once and of nothing else.
    spec fn is_told(&self, event: PollEvent, after: &Self) -> bool;

    fn enter(&mut self)
        ensures
            old(self).is_told(PollEvent::Enter, &*final(self)),
    ;

    fn exit(&mut self)
        ensures
            old(self).is_told(PollEvent::Exit, &*final(self)),
    ;
}

/// The place for a recorder, it can be set only once.
#[derive(Debug)]
pub struct RecorderSlot<R> {
    pub recorder: Option<R>,
}

impl<R> RecorderSlot<R> {
    /// The slot after an attempt to set the recorder.
    pub open spec fn with_recorder(self, recorder: R) -> RecorderSlot<R> {
        if self.recorder is None {
            RecorderSlot { recorder: Some(recorder) }
        } else {
            self
        }
    }
}

impl<R: Recorder> RecorderSlot<R> {
    /// Whether the recorder, if any, has made exactly one step: it has been told of
    /// the event.
    pub open spec fn is_told(&self, event: PollEvent, after: &Self) -> bool {
        match self.recorder {
            Some(recorder) => after.recorder matches Some(told) && recorder.is_told(event, &told),
            None => after.recorder is None,
        }
    }
}

/// Sets the recorder unless there is one. Returns whether it has been set.
pub fn set_recorder<R: Recorder>(slot: &mut RecorderSlot<R>, recorder: R) -> (res: bool)
    ensures
        res == (old(slot).recorder is None),
        *final(slot) == old(slot).with_recorder(recorder),
{
    if slot.recorder.is_some() {
        return false;
    }
    slot.recorder = Some(recorder);
    true
}

/// Reports that an actor is about to be polled. Returns whether there is
/// somebody to report to.
pub fn enter<R: Recorder>(slot: &mut RecorderSlot<R>) -> (res: bool)
    ensures
        res == (old(slot).recorder is Some),
        old(slot).is_told(PollEvent::Enter, &*final(slot)),
{
    match &mut slot.recorder {
        Some(recorder) => {
            recorder.enter();
            true
        },
        None => false,
    }
}

/// Reports that an actor has been polled. Returns whether there is somebody to
/// report to.
pub fn exit<R: Recorder>(slot: &mut RecorderSlot<R>) -> (res: bool)
    ensures
        res == (old(slot).recorder is Some),
        old(slot).is_told(PollEvent::Exit, &*final(slot)),
{
    match &mut slot.recorder {
        Some(recorder) => {
            recorder.exit();
            true
        },
        None => false,
    }
}

// === Laws ===

/// The first recorder stays: it's the only one that is reported to.
pub proof fn first_recorder_stays<R>(slot: RecorderSlot<R>, first: R, second: R)
    ensures
        slot.with_recorder(first).recorder is Some,
        slot.recorder is None ==> slot.with_recorder(first).recorder == Some(first),
        slot.with_recorder(first).with_recorder(second) == slot.with_recorder(first),
{
}

/// Whether `last` is what the recorder becomes once it has been told of all events
/// in order, and of nothing else.
pub open spec fn is_told_all<R: Recorder>(first: R, events: Seq<PollEvent>, last: R) -> bool
    decreases events.len(),
{
    if events.len() == 0 {
        first == last
    } else {
        exists|before: R| #[trigger]
            before.is_told(events.last(), &last) && is_told_all(first, events.drop_last(), before)
    }
}

/// Each report adds exactly one event to what the recorder has been told of.
pub proof fn reports_add_one_event<R: Recorder>(
    first: R,
    events: Seq<PollEvent>,
    before: RecorderSlot<R>,
    event: PollEvent,
    after: RecorderSlot<R>,
)
    requires
        before.recorder matches Some(recorder) && is_told_all(first, events, recorder),
        before.is_told(event, &after),
    ensures
        after.recorder matches Some(recorder) && is_told_all(first, events.push(event), recorder),
{
    assert(events.push(event).drop_last() =~= events);
    assert(before.recorder->0.is_told(events.push(event).last(), &after.recorder->0));
}

/// Only the first recorder is set, and it's told of every poll in order. Without it,
/// nobody is told.
pub proof fn recorder_is_told_of_polls<R: Recorder>(
    slot: &mut RecorderSlot<R>,
    other: &mut RecorderSlot<R>,
    entering: &mut RecorderSlot<R>,
    exiting: &mut RecorderSlot<R>,
    nobody: &mut RecorderSlot<R>,
    recorder: R,
    second: R,
    a: bool,
    b: bool,
    c: bool,
    d: bool,
    e: bool,
)
    requires
        old(slot).recorder is None,
        *old(nobody) == *old(slot),
        *old(other) == *final(slot) && *old(entering) == *final(other) && *old(exiting) == *final(entering),
        call_ensures(set_recorder::<R>, (slot, recorder), a),
        call_ensures(set_recorder::<R>, (other, second), b),
        call_ensures(enter::<R>, (entering,), c),
        call_ensures(exit::<R>, (exiting,), d),
        call_ensures(enter::<R>, (nobody,), e) || call_ensures(exit::<R>, (nobody,), e),
    ensures
        a && !b && c && d && !e,
        final(slot).recorder == Some(recorder),
        *final(other) == *final(slot),
        final(entering).recorder is Some && recorder.is_told(
            PollEvent::Enter,
            &final(entering).recorder->0,
        ),
        final(exiting).recorder is Some && final(entering).recorder->0.is_told(
            PollEvent::Exit,
            &final(exiting).recorder->0,
        ),
        final(nobody).recorder is None,
{
}

} // verus!
