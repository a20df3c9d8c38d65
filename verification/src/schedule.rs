//! When a document is checked: at once when it is opened or saved, and
//! after a change only once the document has rested for the configured
//! time. One check at most is pending; arming a check replaces the one that
//! was pending.
//!
//! Times are nanoseconds on the clock of whoever runs the server.

use vstd::prelude::*;

verus! {

/// A pending check: what to check, and from when on. A time and a rest
/// are 64 bits each; the time of a check is their sum and has 128, so that
/// it holds whatever they are.
#[derive(Clone, Debug, PartialEq, Eq)]
pub struct CheckData {
    pub check_time: u128,
    pub url: String,
    pub path: String,
}

/// A pending check as a mathematical value.
pub struct Pending {
    pub check_time: int,
    pub url: Seq<char>,
    pub path: Seq<char>,
}

impl View for CheckData {
    type V = Pending;

    open spec fn view(&self) -> Pending {
        Pending { check_time: self.check_time as int, url: self.url@, path: self.path@ }
    }
}

/// The pending check, if there is one, as a mathematical value.
pub open spec fn pending(check: Option<CheckData>) -> Option<Pending> {
    match check {
        Some(data) => Some(data@),
        None => None,
    }
}

/// What happened to a document.
pub enum Trigger {
    Open,
    Save,
    Change,
}

/// Something happened to the document `url` at `path`, at time `time`.
pub struct Event {
    pub trigger: Trigger,
    pub time: int,
    pub url: Seq<char>,
    pub path: Seq<char>,
}

/// The event arms a check: every open and save does, a change does where a
/// rest is configured.
pub open spec fn arms(idle: Option<u64>, event: Event) -> bool {
    event.trigger is Change ==> idle is Some
}

/// The check that an event arms: due at once after an open or a save, and
/// after the configured rest after a change.
pub open spec fn armed_by(idle: Option<u64>, event: Event) -> Pending {
    Pending {
        check_time: if event.trigger is Change {
            event.time + idle->0
        } else {
            event.time
        },
        url: event.url,
        path: event.path,
    }
}

/// The pending check after an event: the check that the event arms, in
/// place of any that was pending; or what was pending, where the event arms
/// none.
pub open spec fn after_event(before: Option<Pending>, idle: Option<u64>, event: Event) -> Option<
    Pending,
> {
    if arms(idle, event) {
        Some(armed_by(idle, event))
    } else {
        before
    }
}

/// The pending check after a sequence of events.
pub open spec fn after_events(before: Option<Pending>, idle: Option<u64>, events: Seq<Event>) -> Option<
    Pending,
>
    decreases events.len(),
{
    if events.len() == 0 {
        before
    } else {
        after_event(after_events(before, idle, events.drop_last()), idle, events.last())
    }
}

/// A pending check is due at time `now`.
pub open spec fn due(check: Option<Pending>, now: int) -> bool {
    check matches Some(p) && p.check_time <= now
}

/// Arming: after any sequence of events, what is pending is the check of
/// the last event that armed one, whatever was pending before it; the
/// checks of earlier events are gone. With no arming event what was pending
/// at first still is.
pub proof fn lemma_last_arming_event_wins(
    before: Option<Pending>,
    idle: Option<u64>,
    events: Seq<Event>,
    last: int,
)
    requires
        0 <= last < events.len(),
        arms(idle, events[last]),
        forall|i: int| last < i < events.len() ==> !arms(idle, events[i]),
    ensures
        after_events(before, idle, events) == Some(armed_by(idle, events[last])),
    decreases events.len(),
{
    if last < events.len() - 1 {
        lemma_last_arming_event_wins(before, idle, events.drop_last(), last);
    }
}

/// With no rest configured, changes arm nothing: what is pending stays.
pub proof fn lemma_changes_arm_nothing_without_rest(before: Option<Pending>, events: Seq<Event>)
    requires
        forall|i: int| 0 <= i < events.len() ==> events[i].trigger is Change,
    ensures
        after_events(before, None, events) == before,
    decreases events.len(),
{
    if events.len() > 0 {
        lemma_changes_arm_nothing_without_rest(before, events.drop_last());
    }
}

/// Debounce: with a rest configured, the check that is pending after a
/// change is due no earlier than the rest after that change, whatever was
/// pending before: a change in between puts the check off.
pub proof fn lemma_check_rests_after_change(
    before: Option<Pending>,
    rest: u64,
    events: Seq<Event>,
    now: int,
)
    requires
        events.len() > 0,
        events.last().trigger is Change,
        due(after_events(before, Some(rest), events), now),
    ensures
        now >= events.last().time + rest,
{
}

} // verus!
