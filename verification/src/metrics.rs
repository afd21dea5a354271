//! Speed and accuracy metrics for a finished typing session.
//!
//! All values are exact rationals over the integers; callers that want a
//! decimal reading divide numerator by denominator themselves.

use vstd::prelude::*;

verus! {

/// An exact non-negative rational number with a positive denominator.
#[derive(Clone, Copy, Debug, PartialEq, Eq, Structural)]
pub struct Frac {
    pub num: u64,
    pub den: u64,
}

impl Frac {
    /// A fraction is valid when its denominator is positive.
    pub open spec fn wf(self) -> bool {
        self.den > 0
    }
}

/// Fraction of character keystrokes that were classified correct:
/// `correct / (correct + incorrect)`. With no keystrokes at all the
/// value is undefined, so `None` is returned.
pub fn accuracy(correct: u64, incorrect: u64) -> (r: Option<Frac>)
    requires
        correct + incorrect <= u64::MAX,
    ensures
        (correct == 0 && incorrect == 0) <==> r is None,
        r is Some ==> r->0 == (Frac { num: correct, den: (correct + incorrect) as u64 }),
        r is Some ==> r->0.wf() && r->0.num <= r->0.den,
{
    if correct == 0 && incorrect == 0 {
        None
    } else {
        Some(Frac { num: correct, den: correct + incorrect })
    }
}

/// Elapsed milliseconds between the first and the last logged keystroke.
/// `None` when the log is empty: there is no span to measure.
pub fn duration_ms(timestamps: &Vec<u64>) -> (r: Option<u64>)
    requires
        crate::session::sorted(timestamps@),
    ensures
        (timestamps@.len() == 0) <==> r is None,
        r is Some ==> r->0 == timestamps@.last() - timestamps@.first(),
{
    if timestamps.len() == 0 {
        None
    } else {
        Some(timestamps[timestamps.len() - 1] - timestamps[0])
    }
}

/// Words per minute over the whole target text, with the five-characters-per-
/// word convention: `(target_len / 5) / (duration / 60)`, kept exact as the
/// fraction `target_len * 12000 / duration_ms`. A zero duration carries no
/// speed information, so `None` is returned.
pub fn wpm(target_len: u64, duration_ms: u64) -> (r: Option<Frac>)
    requires
        target_len * 12000 <= u64::MAX,
    ensures
        (duration_ms == 0) <==> r is None,
        r is Some ==> r->0 == (Frac { num: (target_len * 12000) as u64, den: duration_ms }),
        r is Some ==> r->0.wf(),
{
    if duration_ms == 0 {
        None
    } else {
        Some(Frac { num: target_len * 12000, den: duration_ms })
    }
}

/// Accuracy-adjusted words per minute: `wpm * accuracy`, kept exact by
/// multiplying numerators and denominators. `None` on a zero duration,
/// exactly as [`wpm`].
pub fn awpm(target_len: u64, duration_ms: u64, accuracy: Frac) -> (r: Option<Frac>)
    requires
        accuracy.wf(),
        target_len * 12000 <= u64::MAX,
        target_len * 12000 * accuracy.num <= u64::MAX,
        duration_ms * accuracy.den <= u64::MAX,
    ensures
        (duration_ms == 0) <==> r is None,
        r is Some ==> r->0 == (Frac {
            num: (target_len * 12000 * accuracy.num) as u64,
            den: (duration_ms * accuracy.den) as u64,
        }),
        r is Some ==> r->0.wf(),
{
    if duration_ms == 0 {
        None
    } else {
        let words_scaled: u64 = target_len * 12000;
        proof {
            assert(duration_ms * accuracy.den >= 1) by (nonlinear_arith)
                requires
                    duration_ms >= 1,
                    accuracy.den >= 1,
            ;
        }
        Some(Frac { num: words_scaled * accuracy.num, den: duration_ms * accuracy.den })
    }
}

/// The final report of a completed session, every value exact.
#[derive(Clone, Copy, Debug, PartialEq, Eq, Structural)]
pub struct Report {
    pub duration_ms: u64,
    pub accuracy: Frac,
    pub wpm: Frac,
    pub awpm: Frac,
    pub backspaces: u64,
}

/// Reduce a finished session's counters and timestamp log to the final
/// report. `None` — insufficient data — when the log is empty, when the
/// measured duration is zero, or when no character keystroke was counted;
/// never a garbage value.
pub fn compute_report(state: &crate::session::SessionState, target_len: u64) -> (r: Option<Report>)
    requires
        crate::session::sorted(state@.timestamps),
        state@.correct + state@.incorrect <= u64::MAX,
        target_len * 12000 <= u64::MAX,
        target_len * 12000 * state@.correct <= u64::MAX,
        state@.timestamps.len() > 0 ==> (state@.timestamps.last() - state@.timestamps.first()) * (
        state@.correct + state@.incorrect) <= u64::MAX,
    ensures
        r is None <==> (state@.timestamps.len() == 0 || state@.timestamps.last()
            == state@.timestamps.first() || state@.correct + state@.incorrect == 0),
        r is Some ==> r->0 == (Report {
            duration_ms: (state@.timestamps.last() - state@.timestamps.first()) as u64,
            accuracy: Frac {
                num: state@.correct as u64,
                den: (state@.correct + state@.incorrect) as u64,
            },
            wpm: Frac {
                num: (target_len * 12000) as u64,
                den: (state@.timestamps.last() - state@.timestamps.first()) as u64,
            },
            awpm: Frac {
                num: (target_len * 12000 * state@.correct) as u64,
                den: ((state@.timestamps.last() - state@.timestamps.first()) * (state@.correct
                    + state@.incorrect)) as u64,
            },
            backspaces: state@.backspace as u64,
        }),
{
    let dur: u64 = match duration_ms(&state.timestamps) {
        None => { return None; },
        Some(d) => d,
    };
    let acc = match accuracy(state.correct as u64, state.incorrect as u64) {
        None => { return None; },
        Some(a) => a,
    };
    let speed = match wpm(target_len, dur) {
        None => { return None; },
        Some(w) => w,
    };
    let adjusted = match awpm(target_len, dur, acc) {
        None => { return None; },
        Some(a) => a,
    };
    Some(
        Report {
            duration_ms: dur,
            accuracy: acc,
            wpm: speed,
            awpm: adjusted,
            backspaces: state.backspace as u64,
        },
    )
}

} // verus!
