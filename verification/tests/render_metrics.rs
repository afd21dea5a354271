use speedy_type::metrics::{accuracy, awpm, compute_report, duration_ms, wpm, Frac, Report};
use speedy_type::render::{display_glyphs, render, Span};
use speedy_type::session::{KeyEvent, SessionState};

fn to_chars(s: &str) -> Vec<char> {
    s.chars().collect()
}

fn span_strings(spans: &[Span]) -> Vec<(String, bool)> {
    spans.iter().map(|s| (s.chars.iter().collect(), s.correct)).collect()
}

#[test]
fn render_splits_at_every_correctness_flip() {
    let target = to_chars("cat");
    let typed = to_chars("cxt");
    let out = render(&target, &typed);
    assert_eq!(
        span_strings(&out.spans),
        vec![
            (String::from("c"), true),
            (String::from("x"), false),
            (String::from("t"), true),
        ]
    );
    assert_eq!(out.remainder, Vec::<char>::new());
}

#[test]
fn render_groups_contiguous_runs() {
    let target = to_chars("hello world");
    let typed = to_chars("heXXo");
    let out = render(&target, &typed);
    assert_eq!(
        span_strings(&out.spans),
        vec![
            (String::from("he"), true),
            (String::from("XX"), false),
            (String::from("o"), true),
        ]
    );
    assert_eq!(out.remainder, to_chars(" world"));
}

#[test]
fn render_of_empty_typed_text() {
    let target = to_chars("abc");
    let typed = Vec::<char>::new();
    let out = render(&target, &typed);
    assert!(out.spans.is_empty());
    assert_eq!(out.remainder, to_chars("abc"));
}

#[test]
fn render_of_single_character() {
    let target = to_chars("abc");
    let out = render(&target, &to_chars("a"));
    assert_eq!(span_strings(&out.spans), vec![(String::from("a"), true)]);
    assert_eq!(out.remainder, to_chars("bc"));
}

#[test]
fn render_of_fully_typed_target() {
    let target = to_chars("abc");
    let out = render(&target, &to_chars("abc"));
    assert_eq!(span_strings(&out.spans), vec![(String::from("abc"), true)]);
    assert_eq!(out.remainder, Vec::<char>::new());
}

#[test]
fn render_segments_reconstruct_typed_text() {
    let target = to_chars("the quick brown fox");
    let typed = to_chars("thX quiXk br");
    let out = render(&target, &typed);
    let mut rebuilt: Vec<char> = Vec::new();
    for span in &out.spans {
        rebuilt.extend(span.chars.iter().copied());
    }
    let mut full = rebuilt.clone();
    full.extend(out.remainder.iter().copied());
    assert_eq!(rebuilt, typed);
    let mut expected = typed.clone();
    expected.extend(to_chars("own fox"));
    assert_eq!(full, expected);
}

#[test]
fn rendering_twice_yields_identical_spans() {
    let target = to_chars("cat nap");
    let typed = to_chars("cut n");
    let first = render(&target, &typed);
    let second = render(&target, &typed);
    assert_eq!(first, second);
}

#[test]
fn spaces_are_displayed_as_bullets() {
    let chars = to_chars("a b c");
    assert_eq!(display_glyphs(&chars), to_chars("a\u{2022}b\u{2022}c"));
    // Only the displayed glyph changes; the stored characters do not.
    assert_eq!(chars, to_chars("a b c"));
}

#[test]
fn accuracy_is_the_fraction_of_correct_keystrokes() {
    let frac = accuracy(8, 2).unwrap();
    assert_eq!(frac, Frac { num: 8, den: 10 });
    assert_eq!(frac.num as f64 / frac.den as f64, 0.8);
}

#[test]
fn accuracy_with_no_keystrokes_is_undefined() {
    assert_eq!(accuracy(0, 0), None);
}

#[test]
fn wpm_uses_five_characters_per_word() {
    // 45 characters in 60 seconds: 9 words in one minute.
    let frac = wpm(45, 60_000).unwrap();
    assert_eq!(frac, Frac { num: 540_000, den: 60_000 });
    assert_eq!(frac.num as f64 / frac.den as f64, 9.0);
}

#[test]
fn wpm_with_zero_duration_is_undefined() {
    assert_eq!(wpm(45, 0), None);
}

#[test]
fn awpm_scales_wpm_by_accuracy() {
    let acc = accuracy(8, 2).unwrap();
    let frac = awpm(45, 60_000, acc).unwrap();
    assert_eq!(frac.num as f64 / frac.den as f64, 9.0 * 0.8);
}

#[test]
fn awpm_with_zero_duration_is_undefined() {
    assert_eq!(awpm(45, 0, Frac { num: 1, den: 1 }), None);
}

#[test]
fn duration_is_last_minus_first_timestamp() {
    assert_eq!(duration_ms(&vec![5, 12, 30]), Some(25));
    assert_eq!(duration_ms(&Vec::new()), None);
}

#[test]
fn report_for_a_full_session() {
    let target = to_chars("cat");
    let mut state = SessionState::new();
    assert!(!state.step(&target, KeyEvent::Character('c'), 0));
    assert!(!state.step(&target, KeyEvent::Character('a'), 30_000));
    assert!(state.step(&target, KeyEvent::Character('t'), 60_000));
    let report = compute_report(&state, target.len() as u64).unwrap();
    assert_eq!(
        report,
        Report {
            duration_ms: 60_000,
            accuracy: Frac { num: 3, den: 3 },
            wpm: Frac { num: 36_000, den: 60_000 },
            awpm: Frac { num: 108_000, den: 180_000 },
            backspaces: 0,
        }
    );
    assert_eq!(report.wpm.num as f64 / report.wpm.den as f64, 0.6);
    assert_eq!(report.awpm.num as f64 / report.awpm.den as f64, 0.6);
}

#[test]
fn single_keystroke_session_has_insufficient_duration() {
    // One timestamp spans zero time: the report must say "insufficient data"
    // rather than divide by zero.
    let target = to_chars("a");
    let mut state = SessionState::new();
    assert!(state.step(&target, KeyEvent::Character('a'), 42));
    assert_eq!(accuracy(state.correct as u64, state.incorrect as u64), Some(Frac { num: 1, den: 1 }));
    assert_eq!(duration_ms(&state.timestamps), Some(0));
    assert_eq!(compute_report(&state, target.len() as u64), None);
}

#[test]
fn report_with_no_keystrokes_is_undefined() {
    let state = SessionState::new();
    assert_eq!(compute_report(&state, 3), None);
}

#[test]
fn empty_target_completes_at_once_with_no_data() {
    let target = Vec::<char>::new();
    let state = SessionState::new();
    assert!(state.is_complete(&target));
    let out = render(&target, &state.typed);
    assert!(out.spans.is_empty());
    assert!(out.remainder.is_empty());
    assert_eq!(compute_report(&state, 0), None);
}
