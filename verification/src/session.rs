//! Session state and the key-event reducer.
//!
//! A session holds the text typed so far, the three keystroke counters and
//! the keystroke timestamp log. One classified key event at a time is folded
//! into the state by [`SessionState::apply`]; the mathematical meaning of a
//! step is [`apply_model`], and [`run_model`] folds a whole event sequence.

use vstd::prelude::*;

verus! {

/// A classified key event, as the terminal hands them out one at a time.
#[derive(Clone, Copy, Debug, PartialEq, Eq)]
pub enum KeyEvent {
    /// A printable character key bearing one Unicode scalar.
    Character(char),
    /// The backspace key.
    Backspace,
    /// Any other key; ignored by the reducer.
    Other,
}

pub open spec fn is_character(e: KeyEvent) -> bool {
    match e {
        KeyEvent::Character(_) => true,
        _ => false,
    }
}

pub open spec fn is_backspace(e: KeyEvent) -> bool {
    match e {
        KeyEvent::Backspace => true,
        _ => false,
    }
}

/// The mathematical model of a session state.
pub ghost struct StateModel {
    pub typed: Seq<char>,
    pub correct: nat,
    pub incorrect: nat,
    pub backspace: nat,
    pub timestamps: Seq<u64>,
}

/// The state at session start: nothing typed, all counters zero.
pub open spec fn init_model() -> StateModel {
    StateModel {
        typed: Seq::empty(),
        correct: 0,
        incorrect: 0,
        backspace: 0,
        timestamps: Seq::empty(),
    }
}

/// What one key event does to a session state, given the target text and the
/// time the event arrived.
///
/// A character key is ignored once the typed text has reached the target's
/// length; otherwise it is appended, its time is logged, and exactly one of
/// the correct/incorrect counters grows, by whether the character equals the
/// target's character at the same index. Backspace on a non-empty typed text
/// removes the last character and its timestamp, and counts only when the
/// text is still non-empty afterwards. Everything else is a no-op.
pub open spec fn apply_model(s: StateModel, target: Seq<char>, event: KeyEvent, now: u64) -> StateModel {
    match event {
        KeyEvent::Character(c) => {
            if s.typed.len() < target.len() {
                StateModel {
                    typed: s.typed.push(c),
                    correct: if c == target[s.typed.len() as int] { s.correct + 1 } else { s.correct },
                    incorrect: if c == target[s.typed.len() as int] { s.incorrect } else { s.incorrect + 1 },
                    backspace: s.backspace,
                    timestamps: s.timestamps.push(now),
                }
            } else {
                s
            }
        },
        KeyEvent::Backspace => {
            if s.typed.len() == 0 {
                s
            } else {
                StateModel {
                    typed: s.typed.drop_last(),
                    correct: s.correct,
                    incorrect: s.incorrect,
                    backspace: if s.typed.len() > 1 { s.backspace + 1 } else { s.backspace },
                    timestamps: s.timestamps.drop_last(),
                }
            }
        },
        KeyEvent::Other => s,
    }
}

/// The state after folding a whole event sequence into a fresh session,
/// event `i` arriving at time `times[i]`.
pub open spec fn run_model(target: Seq<char>, events: Seq<KeyEvent>, times: Seq<u64>) -> StateModel
    decreases events.len(),
{
    if events.len() == 0 {
        init_model()
    } else {
        apply_model(
            run_model(target, events.drop_last(), times.drop_last()),
            target,
            events.last(),
            times.last(),
        )
    }
}

/// How many of the events are character keys.
pub open spec fn count_character_events(events: Seq<KeyEvent>) -> nat
    decreases events.len(),
{
    if events.len() == 0 {
        0
    } else {
        count_character_events(events.drop_last()) + if is_character(events.last()) {
            1nat
        } else {
            0nat
        }
    }
}

/// How many of the events are backspaces that actually removed a character,
/// i.e. arrived while the typed text was non-empty.
pub open spec fn count_effective_backspaces(
    target: Seq<char>,
    events: Seq<KeyEvent>,
    times: Seq<u64>,
) -> nat
    decreases events.len(),
{
    if events.len() == 0 {
        0
    } else {
        count_effective_backspaces(target, events.drop_last(), times.drop_last()) + if is_backspace(
            events.last(),
        ) && run_model(target, events.drop_last(), times.drop_last()).typed.len() > 0 {
            1nat
        } else {
            0nat
        }
    }
}

/// No character key of the sequence arrives once the typed text has reached
/// the target text's length, so none is ignored by the overtype guard.
pub open spec fn no_overtyping(target: Seq<char>, events: Seq<KeyEvent>, times: Seq<u64>) -> bool
    decreases events.len(),
{
    events.len() == 0 || (no_overtyping(target, events.drop_last(), times.drop_last()) && (
    is_character(events.last()) ==> run_model(
        target,
        events.drop_last(),
        times.drop_last(),
    ).typed.len() < target.len()))
}

/// Law: over any event sequence whose character keys never overtype the
/// target, the typed text's final length is the number of character-key
/// events minus the number of effective backspaces.
pub proof fn lemma_typed_length_counts(target: Seq<char>, events: Seq<KeyEvent>, times: Seq<u64>)
    requires
        times.len() == events.len(),
        no_overtyping(target, events, times),
    ensures
        count_effective_backspaces(target, events, times) <= count_character_events(events),
        run_model(target, events, times).typed.len() == count_character_events(events)
            - count_effective_backspaces(target, events, times),
    decreases events.len(),
{
    if events.len() > 0 {
        lemma_typed_length_counts(target, events.drop_last(), times.drop_last());
    }
}

/// Law: a run from a fresh session keeps the data-model invariants whenever
/// the events arrive in time order: the typed text never outgrows the target,
/// the timestamp log has exactly one entry per typed character, and the log
/// itself stays in time order, every entry at most the latest arrival time.
pub proof fn lemma_run_preserves_invariant(
    target: Seq<char>,
    events: Seq<KeyEvent>,
    times: Seq<u64>,
)
    requires
        times.len() == events.len(),
        sorted(times),
    ensures
        model_wf(run_model(target, events, times), target),
        forall|i: int|
            0 <= i < run_model(target, events, times).timestamps.len()
                ==> #[trigger] run_model(target, events, times).timestamps[i] <= times.last(),
    decreases events.len(),
{
    if events.len() > 0 {
        let pevents = events.drop_last();
        let ptimes = times.drop_last();
        assert forall|i: int, j: int| 0 <= i <= j < ptimes.len() implies ptimes[i] <= ptimes[j] by {
            assert(ptimes[i] == times[i]);
            assert(ptimes[j] == times[j]);
        }
        lemma_run_preserves_invariant(target, pevents, ptimes);
        let prev = run_model(target, pevents, ptimes);
        let cur = run_model(target, events, times);
        let now = times.last();
        assert forall|i: int| 0 <= i < prev.timestamps.len() implies prev.timestamps[i] <= now by {
            assert(run_model(target, pevents, ptimes).timestamps[i] <= ptimes.last());
            assert(ptimes.len() > 0);
            assert(ptimes.last() == times[times.len() - 2]);
            assert(times[times.len() - 2] <= times[times.len() - 1]);
        }
        match events.last() {
            KeyEvent::Character(c) => {
                if prev.typed.len() < target.len() {
                    assert(cur.timestamps == prev.timestamps.push(now));
                    assert forall|i: int, j: int|
                        0 <= i <= j < cur.timestamps.len() implies cur.timestamps[i]
                        <= cur.timestamps[j] by {
                        if j < prev.timestamps.len() {
                            assert(cur.timestamps[i] == prev.timestamps[i]);
                            assert(cur.timestamps[j] == prev.timestamps[j]);
                        } else {
                            assert(cur.timestamps[j] == now);
                            if i < prev.timestamps.len() {
                                assert(cur.timestamps[i] == prev.timestamps[i]);
                            }
                        }
                    }
                }
            },
            KeyEvent::Backspace => {
                if prev.typed.len() > 0 {
                    assert(cur.timestamps == prev.timestamps.drop_last());
                    assert forall|i: int, j: int|
                        0 <= i <= j < cur.timestamps.len() implies cur.timestamps[i]
                        <= cur.timestamps[j] by {
                        assert(cur.timestamps[i] == prev.timestamps[i]);
                        assert(cur.timestamps[j] == prev.timestamps[j]);
                    }
                }
            },
            KeyEvent::Other => {},
        }
    }
}

/// Law: no event ever decreases a counter — all three are monotone over the
/// session's lifetime.
pub proof fn lemma_counters_monotone(s: StateModel, target: Seq<char>, event: KeyEvent, now: u64)
    ensures
        apply_model(s, target, event, now).correct >= s.correct,
        apply_model(s, target, event, now).incorrect >= s.incorrect,
        apply_model(s, target, event, now).backspace >= s.backspace,
{
}

/// Law: backspace on an empty typed text changes nothing at all.
pub proof fn lemma_backspace_on_empty_is_noop(s: StateModel, target: Seq<char>, now: u64)
    requires
        s.typed.len() == 0,
    ensures
        apply_model(s, target, KeyEvent::Backspace, now) == s,
{
}

/// Law: a character key accepted at index `i = typed.len()` is classified
/// correct — grows the correct counter — iff it equals the target text's
/// character at that same index; otherwise the incorrect counter grows.
pub proof fn lemma_character_classification(s: StateModel, target: Seq<char>, c: char, now: u64)
    requires
        s.typed.len() < target.len(),
    ensures
        apply_model(s, target, KeyEvent::Character(c), now).typed == s.typed.push(c),
        apply_model(s, target, KeyEvent::Character(c), now).correct == s.correct + 1 <==> c
            == target[s.typed.len() as int],
        apply_model(s, target, KeyEvent::Character(c), now).incorrect == s.incorrect + 1 <==> c
            != target[s.typed.len() as int],
        apply_model(s, target, KeyEvent::Character(c), now).backspace == s.backspace,
{
}

/// Timestamps are logged in the order they happened.
pub open spec fn sorted(ts: Seq<u64>) -> bool {
    forall|i: int, j: int| 0 <= i <= j < ts.len() ==> ts[i] <= ts[j]
}

/// The session state: the typed text, the three counters and the timestamp log.
#[derive(Clone, Debug, PartialEq, Eq)]
pub struct SessionState {
    pub typed: Vec<char>,
    pub correct: usize,
    pub incorrect: usize,
    pub backspace: usize,
    pub timestamps: Vec<u64>,
}

impl View for SessionState {
    type V = StateModel;

    open spec fn view(&self) -> StateModel {
        StateModel {
            typed: self.typed@,
            correct: self.correct as nat,
            incorrect: self.incorrect as nat,
            backspace: self.backspace as nat,
            timestamps: self.timestamps@,
        }
    }
}

/// Well-formedness of a model against a target text: the typed text never
/// outgrows the target, the timestamp log always has exactly one entry per
/// typed character, and the timestamps are in order.
pub open spec fn model_wf(s: StateModel, target: Seq<char>) -> bool {
    &&& s.typed.len() <= target.len()
    &&& s.timestamps.len() == s.typed.len()
    &&& sorted(s.timestamps)
}

impl SessionState {
    pub open spec fn wf(&self, target: Seq<char>) -> bool {
        model_wf(self@, target)
    }

    /// A fresh session: nothing typed, counters at zero.
    pub fn new() -> (s: Self)
        ensures
            s@ == init_model(),
            forall|target: Seq<char>| s.wf(target),
    {
        SessionState {
            typed: Vec::new(),
            correct: 0,
            incorrect: 0,
            backspace: 0,
            timestamps: Vec::new(),
        }
    }

    /// Fold one key event into the state, exactly as [`apply_model`] says.
    pub fn apply(&mut self, target: &Vec<char>, event: KeyEvent, now: u64)
        requires
            old(self).wf(target@),
            old(self)@.timestamps.len() > 0 ==> old(self)@.timestamps.last() <= now,
            old(self).correct < usize::MAX,
            old(self).incorrect < usize::MAX,
            old(self).backspace < usize::MAX,
        ensures
            final(self)@ == apply_model(old(self)@, target@, event, now),
            final(self).wf(target@),
    {
        match event {
            KeyEvent::Character(c) => {
                if self.typed.len() < target.len() {
                    let idx: usize = self.typed.len();
                    self.typed.push(c);
                    self.timestamps.push(now);
                    if c == target[idx] {
                        self.correct = self.correct + 1;
                    } else {
                        self.incorrect = self.incorrect + 1;
                    }
                }
            },
            KeyEvent::Backspace => {
                if self.typed.len() > 0 {
                    self.typed.pop();
                    self.timestamps.pop();
                    if self.typed.len() > 0 {
                        self.backspace = self.backspace + 1;
                    }
                }
            },
            KeyEvent::Other => {},
        }
    }

    /// The session is complete exactly when the typed text has reached the
    /// target text's length.
    pub fn is_complete(&self, target: &Vec<char>) -> (r: bool)
        ensures
            r == (self@.typed.len() == target@.len()),
    {
        self.typed.len() == target.len()
    }

    /// One turn of the session loop's decision logic: fold the event in and
    /// say whether the session is now complete.
    pub fn step(&mut self, target: &Vec<char>, event: KeyEvent, now: u64) -> (done: bool)
        requires
            old(self).wf(target@),
            old(self)@.timestamps.len() > 0 ==> old(self)@.timestamps.last() <= now,
            old(self).correct < usize::MAX,
            old(self).incorrect < usize::MAX,
            old(self).backspace < usize::MAX,
        ensures
            final(self)@ == apply_model(old(self)@, target@, event, now),
            final(self).wf(target@),
            done == (final(self)@.typed.len() == target@.len()),
    {
        self.apply(target, event, now);
        self.is_complete(target)
    }
}

} // verus!
