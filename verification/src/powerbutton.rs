//! The press classifier: consumes key-state-change events for the power key,
//! tracks the instant of the most recent press, and on each release classifies
//! the elapsed interval as a short or a long press.

use vstd::prelude::*;

verus! {

/// Linux input key code of the hardware power key.
pub const POWER_KEY_CODE: u16 = 116;

/// Key state value reported when a key goes down; any other value on the
/// power key is treated as a release.
pub const KEY_VALUE_PRESSED: i32 = 1;

/// Classification of a completed press/release cycle.
#[derive(Clone, Copy, PartialEq, Eq, Structural, Debug)]
pub enum PressType {
    LongPress,
    ShortPress,
}

/// A discrete key-state-change notification: which key, whether it went down
/// or up, and when it was observed (milliseconds on a monotonic clock).
#[derive(Clone, Copy, PartialEq, Eq, Structural, Debug)]
pub struct InputEvent {
    pub key: u16,
    pub value: i32,
    pub time_ms: u64,
}

/// The classifier. It owns the one piece of mutable state of the daemon:
/// the time of the most recent power-key press, `None` until the first
/// press of this session.
pub struct PowerButton {
    pub device_path: String,
    pub long_press_threshold_ms: u64,
    pub last_pressed_at_ms: Option<u64>,
}

/// A press event for the power key.
pub open spec fn is_power_press(ev: InputEvent) -> bool {
    ev.key == POWER_KEY_CODE && ev.value == KEY_VALUE_PRESSED
}

/// A release event for the power key.
pub open spec fn is_power_release(ev: InputEvent) -> bool {
    ev.key == POWER_KEY_CODE && ev.value != KEY_VALUE_PRESSED
}

/// Elapsed time between a recorded press and a release, saturating at zero.
pub open spec fn spec_elapsed(pressed_at: u64, released_at: u64) -> int {
    if released_at >= pressed_at {
        released_at - pressed_at
    } else {
        0
    }
}

/// The threshold comparison: strictly below the threshold is a short press,
/// at or above it (inclusive lower bound) a long press.
pub open spec fn classify(elapsed: int, threshold: int) -> PressType {
    if elapsed < threshold {
        PressType::ShortPress
    } else {
        PressType::LongPress
    }
}

/// What a release at `released_at` is classified as, given the recorded
/// press time. A release with no press recorded in this session counts as
/// a long press: the notional elapsed time is unbounded.
pub open spec fn spec_classification(
    last: Option<u64>,
    released_at: u64,
    threshold: u64,
) -> PressType {
    match last {
        Option::None => PressType::LongPress,
        Option::Some(t) => classify(spec_elapsed(t, released_at), threshold as int),
    }
}

/// One transition of the classifier: from the recorded press time and one
/// event to the new recorded press time and the classification dispatched
/// for this event, if any.
pub open spec fn step(last: Option<u64>, threshold: u64, ev: InputEvent) -> (
    Option<u64>,
    Option<PressType>,
) {
    if ev.key != POWER_KEY_CODE {
        (last, Option::<PressType>::None)
    } else if ev.value == KEY_VALUE_PRESSED {
        (Option::Some(ev.time_ms), Option::<PressType>::None)
    } else {
        (last, Option::Some(spec_classification(last, ev.time_ms, threshold)))
    }
}

/// The classifier run over a whole event sequence: the final recorded press
/// time, and every classification dispatched, in arrival order.
pub open spec fn run_classifications(
    last: Option<u64>,
    threshold: u64,
    events: Seq<InputEvent>,
) -> (Option<u64>, Seq<PressType>)
    decreases events.len(),
{
    if events.len() == 0 {
        (last, Seq::<PressType>::empty())
    } else {
        let prefix = run_classifications(last, threshold, events.drop_last());
        let stepped = step(prefix.0, threshold, events.last());
        (
            stepped.0,
            match stepped.1 {
                Option::Some(p) => prefix.1.push(p),
                Option::None => prefix.1,
            },
        )
    }
}

/// How many power-key release events a sequence holds.
pub open spec fn count_power_releases(events: Seq<InputEvent>) -> nat
    decreases events.len(),
{
    if events.len() == 0 {
        0
    } else {
        count_power_releases(events.drop_last()) + if is_power_release(events.last()) {
            1nat
        } else {
            0nat
        }
    }
}

impl PowerButton {
    /// A fresh classifier for the device at `path`: no press has been
    /// observed yet in this session.
    pub fn new(path: String, long_press_threshold_ms: u64) -> (r: Self)
        ensures
            r.device_path == path,
            r.long_press_threshold_ms == long_press_threshold_ms,
            r.last_pressed_at_ms is None,
    {
        PowerButton {
            device_path: path,
            long_press_threshold_ms,
            last_pressed_at_ms: Option::None,
        }
    }

    /// Feed one event to the classifier. Returns the classification to
    /// dispatch for this event, or `None` when the event asks for no action
    /// (a foreign key, or a press, which only records its time).
    pub fn on_event(&mut self, ev: InputEvent) -> (r: Option<PressType>)
        ensures
            final(self).device_path == old(self).device_path,
            final(self).long_press_threshold_ms == old(self).long_press_threshold_ms,
            (final(self).last_pressed_at_ms, r) == step(
                old(self).last_pressed_at_ms,
                old(self).long_press_threshold_ms,
                ev,
            ),
            ev.key != POWER_KEY_CODE ==> r is None && final(self).last_pressed_at_ms == old(
                self,
            ).last_pressed_at_ms,
            is_power_press(ev) ==> r is None && final(self).last_pressed_at_ms == Option::Some(
                ev.time_ms,
            ),
            is_power_release(ev) ==> r == Option::Some(
                spec_classification(
                    old(self).last_pressed_at_ms,
                    ev.time_ms,
                    old(self).long_press_threshold_ms,
                ),
            ) && final(self).last_pressed_at_ms == old(self).last_pressed_at_ms,
    {
        if ev.key != POWER_KEY_CODE {
            Option::None
        } else if ev.value == KEY_VALUE_PRESSED {
            self.last_pressed_at_ms = Option::Some(ev.time_ms);
            Option::None
        } else {
            let press = match self.last_pressed_at_ms {
                Option::None => PressType::LongPress,
                Option::Some(t) => {
                    let elapsed: u64 = if ev.time_ms >= t {
                        ev.time_ms - t
                    } else {
                        0
                    };
                    if elapsed < self.long_press_threshold_ms {
                        PressType::ShortPress
                    } else {
                        PressType::LongPress
                    }
                },
            };
            Option::Some(press)
        }
    }
    /// Feed a whole sequence of events to the classifier, in order, one at
    /// a time, and collect every classification dispatched. This is the
    /// synchronous body of the consumption loop: the daemon feeds each event
    /// as the device delivers it and dispatches each returned classification
    /// before reading on.
    pub fn process_events(&mut self, events: &Vec<InputEvent>) -> (r: Vec<PressType>)
        ensures
            final(self).device_path == old(self).device_path,
            final(self).long_press_threshold_ms == old(self).long_press_threshold_ms,
            (final(self).last_pressed_at_ms, r@) == run_classifications(
                old(self).last_pressed_at_ms,
                old(self).long_press_threshold_ms,
                events@,
            ),
            r@.len() == count_power_releases(events@),
    {
        let ghost last0: Option<u64> = self.last_pressed_at_ms;
        let ghost threshold: u64 = self.long_press_threshold_ms;
        let mut out: Vec<PressType> = Vec::new();
        let mut i: usize = 0;
        while i < events.len()
            invariant
                i <= events.len(),
                self.device_path == old(self).device_path,
                self.long_press_threshold_ms == threshold,
                threshold == old(self).long_press_threshold_ms,
                last0 == old(self).last_pressed_at_ms,
                (self.last_pressed_at_ms, out@) == run_classifications(
                    last0,
                    threshold,
                    events@.take(i as int),
                ),
            decreases events.len() - i,
        {
            proof {
                assert(events@.take(i + 1).drop_last() =~= events@.take(i as int));
                assert(events@.take(i + 1).last() == events@[i as int]);
            }
            let c = self.on_event(events[i]);
            if let Option::Some(p) = c {
                out.push(p);
            }
            i = i + 1;
        }
        proof {
            assert(events@.take(events@.len() as int) =~= events@);
            lemma_run_count(last0, threshold, events@);
        }
        out
    }
}

/// The classifier dispatches exactly one classification for each power-key
/// release event it observes — never zero, never more — whatever the other
/// events are and whatever state it starts in.
pub proof fn lemma_run_count(last: Option<u64>, threshold: u64, events: Seq<InputEvent>)
    ensures
        run_classifications(last, threshold, events).1.len() == count_power_releases(events),
    decreases events.len(),
{
    if events.len() > 0 {
        lemma_run_count(last, threshold, events.drop_last());
    }
}

/// Events for keys other than the power key never yield a classification
/// and never change the classifier's state.
pub proof fn lemma_other_keys_ignored(last: Option<u64>, threshold: u64, events: Seq<InputEvent>)
    requires
        forall|i: int| 0 <= i < events.len() ==> (#[trigger] events[i]).key != POWER_KEY_CODE,
    ensures
        run_classifications(last, threshold, events) == (last, Seq::<PressType>::empty()),
    decreases events.len(),
{
    if events.len() > 0 {
        lemma_other_keys_ignored(last, threshold, events.drop_last());
    }
}

/// A release with no press recorded in this session — the daemon started
/// mid-sequence — is classified as a long press, from any threshold.
pub proof fn lemma_release_without_press(threshold: u64, release: InputEvent)
    requires
        is_power_release(release),
    ensures
        step(Option::None, threshold, release).1 == Option::Some(PressType::LongPress),
        run_classifications(Option::None, threshold, seq![release]).1 =~= seq![
            PressType::LongPress,
        ],
{
    let empty = Seq::<InputEvent>::empty();
    let one = seq![release];
    assert(one.drop_last() =~= empty);
    assert(one.last() == release);
    assert(run_classifications(Option::None, threshold, empty) == (
        Option::<u64>::None,
        Seq::<PressType>::empty(),
    ));
    assert(run_classifications(Option::None, threshold, one).1 =~= seq![PressType::LongPress]);
}

/// For any press/release pair: the classification is short exactly when the
/// elapsed time is strictly below the threshold, and long when it is at or
/// above it — at exactly the threshold the press is long.
pub proof fn lemma_press_release_pair(
    last: Option<u64>,
    threshold: u64,
    press: InputEvent,
    release: InputEvent,
)
    requires
        is_power_press(press),
        is_power_release(release),
        press.time_ms <= release.time_ms,
    ensures
        run_classifications(last, threshold, seq![press, release]).1 =~= seq![
            classify(release.time_ms - press.time_ms, threshold as int),
        ],
        release.time_ms - press.time_ms < threshold ==> run_classifications(
            last,
            threshold,
            seq![press, release],
        ).1 =~= seq![PressType::ShortPress],
        release.time_ms - press.time_ms >= threshold ==> run_classifications(
            last,
            threshold,
            seq![press, release],
        ).1 =~= seq![PressType::LongPress],
{
    let empty = Seq::<InputEvent>::empty();
    let one = seq![press];
    let pair = seq![press, release];
    assert(pair.drop_last() =~= one);
    assert(pair.last() == release);
    assert(one.drop_last() =~= empty);
    assert(one.last() == press);
    assert(run_classifications(last, threshold, empty) == (
        last,
        Seq::<PressType>::empty(),
    ));
    assert(run_classifications(last, threshold, one) == (
        Option::Some(press.time_ms),
        Seq::<PressType>::empty(),
    ));
    assert(run_classifications(last, threshold, pair).1 =~= seq![
        classify(release.time_ms - press.time_ms, threshold as int),
    ]);
}

/// A second press with no release in between overwrites the recorded press
/// time: the following release measures its elapsed time from the most
/// recent press alone.
pub proof fn lemma_press_overwrites(
    last: Option<u64>,
    threshold: u64,
    first: InputEvent,
    second: InputEvent,
    release: InputEvent,
)
    requires
        is_power_press(first),
        is_power_press(second),
        is_power_release(release),
        second.time_ms <= release.time_ms,
    ensures
        run_classifications(last, threshold, seq![first, second, release]).1 =~= seq![
            classify(release.time_ms - second.time_ms, threshold as int),
        ],
{
    let empty = Seq::<InputEvent>::empty();
    let one = seq![first];
    let two = seq![first, second];
    let triple = seq![first, second, release];
    assert(triple.drop_last() =~= two);
    assert(triple.last() == release);
    assert(two.drop_last() =~= one);
    assert(two.last() == second);
    assert(one.drop_last() =~= empty);
    assert(one.last() == first);
    assert(run_classifications(last, threshold, empty) == (
        last,
        Seq::<PressType>::empty(),
    ));
    assert(run_classifications(last, threshold, one) == (
        Option::Some(first.time_ms),
        Seq::<PressType>::empty(),
    ));
    assert(run_classifications(last, threshold, two) == (
        Option::Some(second.time_ms),
        Seq::<PressType>::empty(),
    ));
    assert(run_classifications(last, threshold, triple).1 =~= seq![
        classify(release.time_ms - second.time_ms, threshold as int),
    ]);
}

/// Which external action a classified press asks for, depending on whether
/// an interactive game session is active: in game mode the press is
/// forwarded to the session; outside it a short press suspends the machine
/// and a long press powers it off.
#[derive(Clone, Copy, PartialEq, Eq, Structural, Debug)]
pub enum PowerAction {
    ForwardShortPress,
    ForwardLongPress,
    Suspend,
    Poweroff,
}

/// The dispatch rule, as a function of the classification and the live
/// game-mode state.
pub open spec fn spec_decide_action(press: PressType, gamemode: bool) -> PowerAction {
    match press {
        PressType::ShortPress => if gamemode {
            PowerAction::ForwardShortPress
        } else {
            PowerAction::Suspend
        },
        PressType::LongPress => if gamemode {
            PowerAction::ForwardLongPress
        } else {
            PowerAction::Poweroff
        },
    }
}

/// Decide which external action to take for a classified press.
pub fn decide_action(press: PressType, gamemode: bool) -> (r: PowerAction)
    ensures
        r == spec_decide_action(press, gamemode),
{
    match press {
        PressType::ShortPress => if gamemode {
            PowerAction::ForwardShortPress
        } else {
            PowerAction::Suspend
        },
        PressType::LongPress => if gamemode {
            PowerAction::ForwardLongPress
        } else {
            PowerAction::Poweroff
        },
    }
}

} // verus!
