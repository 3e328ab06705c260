use typycal::History;
use typycal::Key;

#[test]
fn default_history_is_empty() {
    let history = History::default();
    assert!(history.timer.is_none());
    assert!(history.key_history.is_empty());
    assert!(history.words.is_empty());
}

#[test]
fn record_at_appends_and_leaves_the_timer() {
    let mut history = History::default();
    history.record_at(0, Key::Char('c'));
    history.record_at(120, Key::Backspace);
    assert_eq!(history.key_history, vec![(0, Key::Char('c')), (120, Key::Backspace)]);
    assert!(history.timer.is_none());
    assert!(history.words.is_empty());
}

#[test]
fn record_key_starts_the_timer_once() {
    let mut history = History::default();
    history.record_key(Key::Char('a'));
    let origin = history.timer;
    assert!(origin.is_some());
    history.record_key(Key::Char(' '));
    history.record_key(Key::Ctrl('c'));
    assert_eq!(history.timer, origin);
    let keys: Vec<Key> = history.key_history.iter().map(|entry| entry.1).collect();
    assert_eq!(keys, vec![Key::Char('a'), Key::Char(' '), Key::Ctrl('c')]);
}

#[test]
fn recorded_times_do_not_go_back() {
    let mut history = History::default();
    for _ in 0..50 {
        history.record_key(Key::Char('a'));
    }
    for pair in history.key_history.windows(2) {
        assert!(pair[0].0 <= pair[1].0);
    }
}

#[test]
fn record_key_records_any_key() {
    let mut history = History::default();
    history.record_key(Key::Other);
    assert_eq!(history.key_history.len(), 1);
    assert_eq!(history.key_history[0].1, Key::Other);
    assert!(!history.is_replayable());
}

#[test]
fn replayable_keys() {
    assert!(Key::Char('a').is_replayable());
    assert!(Key::Char(' ').is_replayable());
    assert!(Key::Char('\t').is_replayable());
    assert!(Key::Backspace.is_replayable());
    assert!(Key::Ctrl('c').is_replayable());
    assert!(!Key::Ctrl('d').is_replayable());
    assert!(!Key::Other.is_replayable());
}

#[test]
fn a_log_is_replayable_if_each_key_is() {
    let mut history = History::default();
    assert!(history.is_replayable());
    history.record_at(0, Key::Char('a'));
    history.record_at(1, Key::Backspace);
    history.record_at(2, Key::Ctrl('c'));
    assert!(history.is_replayable());
    history.record_at(3, Key::Ctrl('z'));
    assert!(!history.is_replayable());
}
