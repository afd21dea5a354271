use speedy_type::session::{KeyEvent, SessionState};

fn to_chars(s: &str) -> Vec<char> {
    s.chars().collect()
}

#[test]
fn scenario_cat_no_backspace() {
    let target = to_chars("cat");
    let mut state = SessionState::new();
    let mut done = state.step(&target, KeyEvent::Character('c'), 0);
    assert!(!done);
    done = state.step(&target, KeyEvent::Character('a'), 1);
    assert!(!done);
    done = state.step(&target, KeyEvent::Character('x'), 2);
    assert!(done);
    assert_eq!(state.typed, to_chars("cax"));
    assert_eq!(state.correct, 2);
    assert_eq!(state.incorrect, 1);
    assert_eq!(state.backspace, 0);
}

#[test]
fn scenario_cat_with_backspace() {
    let target = to_chars("cat");
    let mut state = SessionState::new();
    assert!(!state.step(&target, KeyEvent::Character('c'), 0));
    assert!(!state.step(&target, KeyEvent::Character('x'), 1));
    assert!(!state.step(&target, KeyEvent::Backspace, 2));
    assert!(!state.step(&target, KeyEvent::Character('a'), 3));
    assert!(state.step(&target, KeyEvent::Character('t'), 4));
    assert_eq!(state.typed, to_chars("cat"));
    // 'c', 'a' and 't' each match the target at their index, 'x' does not.
    assert_eq!(state.correct, 3);
    assert_eq!(state.incorrect, 1);
    // The backspace fell while one character remained afterwards, so it counts.
    assert_eq!(state.backspace, 1);
}

#[test]
fn scenario_single_character_target() {
    let target = to_chars("a");
    let mut state = SessionState::new();
    let done = state.step(&target, KeyEvent::Character('a'), 7);
    assert!(done);
    assert_eq!(state.correct, 1);
    assert_eq!(state.incorrect, 0);
    assert_eq!(state.timestamps, vec![7]);
}

#[test]
fn backspace_on_empty_is_noop() {
    let target = to_chars("abc");
    let mut state = SessionState::new();
    let before = state.clone();
    state.apply(&target, KeyEvent::Backspace, 5);
    assert_eq!(state, before);
}

#[test]
fn backspace_that_empties_the_text_is_not_counted() {
    let target = to_chars("ab");
    let mut state = SessionState::new();
    state.apply(&target, KeyEvent::Character('x'), 0);
    state.apply(&target, KeyEvent::Backspace, 1);
    assert_eq!(state.typed, Vec::<char>::new());
    assert_eq!(state.timestamps, Vec::<u64>::new());
    assert_eq!(state.backspace, 0);
    assert_eq!(state.incorrect, 1);
}

#[test]
fn other_keys_are_ignored() {
    let target = to_chars("ab");
    let mut state = SessionState::new();
    state.apply(&target, KeyEvent::Character('a'), 0);
    let before = state.clone();
    state.apply(&target, KeyEvent::Other, 1);
    assert_eq!(state, before);
}

#[test]
fn character_keys_at_full_length_are_ignored() {
    let target = to_chars("a");
    let mut state = SessionState::new();
    state.apply(&target, KeyEvent::Character('a'), 0);
    let before = state.clone();
    state.apply(&target, KeyEvent::Character('b'), 1);
    assert_eq!(state, before);
}

#[test]
fn timestamp_log_tracks_typed_length() {
    let target = to_chars("hello");
    let mut state = SessionState::new();
    let events = [
        KeyEvent::Character('h'),
        KeyEvent::Character('x'),
        KeyEvent::Backspace,
        KeyEvent::Other,
        KeyEvent::Character('e'),
    ];
    let mut now: u64 = 0;
    for e in events {
        state.apply(&target, e, now);
        assert_eq!(state.timestamps.len(), state.typed.len());
        now += 1;
    }
    assert_eq!(state.typed, to_chars("he"));
    assert_eq!(state.timestamps, vec![0, 4]);
}
