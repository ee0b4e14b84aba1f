use vstd::prelude::*;

verus! {

/// A collision notification raised during a tick.
#[derive(Clone, Copy, Debug, PartialEq, Eq, Structural)]
pub enum CollisionEvent {
    /// A contact began.
    Started,
    /// A contact ended.
    Stopped,
}

impl CollisionEvent {
    pub fn is_start(&self) -> (r: bool)
        ensures
            r == (*self is Started),
    {
        match self {
            CollisionEvent::Started => true,
            CollisionEvent::Stopped => false,
        }
    }
}

/// Some notification in `events` marks the start of a contact.
pub open spec fn any_start(events: Seq<CollisionEvent>) -> bool {
    exists|i: int| 0 <= i < events.len() && (#[trigger] events[i]) is Started
}

/// How many times the sound plays for the notifications of one tick: once if
/// any contact started, else never.
pub open spec fn plays_for(events: Seq<CollisionEvent>) -> nat {
    if any_start(events) {
        1
    } else {
        0
    }
}

/// Consumes this tick's notifications and returns how many times the
/// collision sound is to be played (0 or 1). The queue is left empty.
pub fn play_collision_sound(events: &mut Vec<CollisionEvent>) -> (plays: u32)
    ensures
        plays == plays_for(old(events)@),
        final(events)@ == Seq::<CollisionEvent>::empty(),
{
    let mut found = false;
    let mut i: usize = 0;
    while i < events.len()
        invariant
            0 <= i <= events@.len(),
            found == exists|j: int| 0 <= j < i && (#[trigger] events@[j]) is Started,
        decreases events@.len() - i,
    {
        if events[i].is_start() {
            found = true;
        }
        i = i + 1;
    }
    events.clear();
    if found {
        1
    } else {
        0
    }
}

/// However many contacts start in one tick, the sound plays exactly once;
/// notifications that only end contacts play nothing.
pub proof fn lemma_sound_plays_once(events: Seq<CollisionEvent>)
    ensures
        (exists|i: int| 0 <= i < events.len() && (#[trigger] events[i]) is Started) ==> plays_for(
            events,
        ) == 1,
        (forall|i: int| 0 <= i < events.len() ==> (#[trigger] events[i]) is Stopped) ==> plays_for(
            events,
        ) == 0,
{
}

} // verus!
