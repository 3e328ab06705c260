use typycal::Action;
use typycal::Game;
use typycal::GameMode;
use typycal::Key;
use typycal::Span;
use typycal::Status;
use typycal::Style;

const DATA: &str = "the,be,to,of,and,a,in,that,have,it";

fn session(words: &[&'static str]) -> Game {
    Game::with_words(GameMode::Words(words.len()), words.to_vec())
}

fn type_text(game: &mut Game, text: &str) -> Vec<Action> {
    text.chars()
        .enumerate()
        .map(|(i, c)| game.handle_key_at(i as u128 * 100, Key::Char(c)))
        .collect()
}

#[test]
fn default_mode_is_ten_words() {
    assert_eq!(GameMode::default(), GameMode::Words(10));
}

#[test]
fn new_session_shows_the_first_word() {
    let game = session(&["cat", "dog"]);
    assert_eq!(game.status(), Status::Running);
    assert_eq!(game.history().words, vec!["cat"]);
    assert!(game.history().key_history.is_empty());
    assert_eq!(
        game.render(),
        vec![
            Span { ch: 'c', style: Style::Plain },
            Span { ch: 'a', style: Style::Plain },
            Span { ch: 't', style: Style::Plain },
        ]
    );
}

#[test]
fn session_without_words_is_over_at_once() {
    let mut game = session(&[]);
    assert_eq!(game.status(), Status::Finished);
    assert_eq!(game.handle_key_at(0, Key::Char('a')), Action::Finish);
    assert!(game.history().key_history.is_empty());
    assert!(game.history().words.is_empty());
    assert!(game.upcoming().is_empty());
    assert!(game.finalize().is_none());
}

#[test]
fn session_without_keys_has_no_statistics() {
    assert!(session(&["cat"]).finalize().is_none());
}

#[test]
fn peek_depth_defaults_to_three() {
    let game = session(&["a", "b", "c", "d", "e", "f"]);
    assert_eq!(game.peek_depth(), 3);
    assert_eq!(game.upcoming(), vec!["b", "c", "d"]);
}

#[test]
fn num_peek_sets_the_depth() {
    let game = session(&["a", "b", "c", "d", "e", "f"]).num_peek(2);
    assert_eq!(game.peek_depth(), 2);
    assert_eq!(game.upcoming(), vec!["b", "c"]);
    let game = game.num_peek(0);
    assert!(game.upcoming().is_empty());
    let game = game.num_peek(u16::MAX);
    assert_eq!(game.upcoming(), vec!["b", "c", "d", "e", "f"]);
}

#[test]
fn upcoming_shrinks_towards_the_end() {
    let mut game = session(&["a", "b", "c"]);
    assert_eq!(game.upcoming(), vec!["b", "c"]);
    game.handle_key_at(0, Key::Char(' '));
    assert_eq!(game.upcoming(), vec!["c"]);
    game.handle_key_at(0, Key::Char(' '));
    assert!(game.upcoming().is_empty());
    game.handle_key_at(0, Key::Char(' '));
    assert!(game.upcoming().is_empty());
}

#[test]
fn peek_depth_does_not_change_what_keys_do() {
    let mut shallow = session(&["ab", "cd"]).num_peek(0);
    let mut deep = session(&["ab", "cd"]).num_peek(9);
    assert_eq!(type_text(&mut shallow, "ab cd"), type_text(&mut deep, "ab cd"));
    assert_eq!(shallow.status(), Status::Finished);
    assert_eq!(deep.status(), Status::Finished);
}

#[test]
fn characters_are_entered_into_the_current_word() {
    let mut game = session(&["cat", "dog"]);
    assert_eq!(type_text(&mut game, "cx"), vec![Action::Redraw, Action::Redraw]);
    assert_eq!(
        game.render(),
        vec![
            Span { ch: 'c', style: Style::Correct },
            Span { ch: 'a', style: Style::Incorrect },
            Span { ch: 't', style: Style::Plain },
        ]
    );
    assert_eq!(game.status(), Status::Running);
}

#[test]
fn deletion_erases_the_last_character() {
    let mut game = session(&["cat", "dog"]);
    type_text(&mut game, "cx");
    assert_eq!(game.handle_key_at(250, Key::Backspace), Action::Erase);
    assert_eq!(
        game.render(),
        vec![
            Span { ch: 'c', style: Style::Correct },
            Span { ch: 'a', style: Style::Plain },
            Span { ch: 't', style: Style::Plain },
        ]
    );
}

#[test]
fn delimiter_moves_to_the_next_word() {
    let mut game = session(&["cat", "dog"]);
    type_text(&mut game, "ca");
    assert_eq!(game.handle_key_at(300, Key::Char(' ')), Action::NextWord);
    assert_eq!(game.status(), Status::Running);
    assert_eq!(game.history().words, vec!["cat", "dog"]);
    assert_eq!(game.render()[0], Span { ch: 'd', style: Style::Plain });
    assert!(game.upcoming().is_empty());
}

#[test]
fn delimiter_after_the_last_word_finishes() {
    let mut game = session(&["cat"]);
    type_text(&mut game, "cx");
    assert_eq!(game.handle_key_at(300, Key::Char(' ')), Action::Finish);
    assert_eq!(game.status(), Status::Finished);
}

#[test]
fn completing_the_last_word_finishes() {
    let mut game = session(&["ab", "cd"]);
    assert_eq!(
        type_text(&mut game, "ab cd"),
        vec![Action::Redraw, Action::Redraw, Action::NextWord, Action::Redraw, Action::Finish]
    );
    assert_eq!(game.status(), Status::Finished);
    let statistics = game.finalize().unwrap();
    assert_eq!(statistics.correct_words(), 2);
    assert_eq!(statistics.incorrect_words(), 0);
    assert_eq!(statistics.correct_chars(), 4);
    assert_eq!(statistics.elapsed_ms(), 400);
}

#[test]
fn completing_an_earlier_word_does_not_finish() {
    let mut game = session(&["ab", "cd"]);
    assert_eq!(type_text(&mut game, "ab"), vec![Action::Redraw, Action::Redraw]);
    assert_eq!(game.status(), Status::Running);
}

#[test]
fn completing_the_last_word_with_a_wrong_character_does_not_finish() {
    let mut game = session(&["ab"]);
    assert_eq!(type_text(&mut game, "ax"), vec![Action::Redraw, Action::Redraw]);
    assert_eq!(game.status(), Status::Running);
}

#[test]
fn a_corrected_last_word_finishes_but_stays_incorrect() {
    let mut game = session(&["ab"]);
    type_text(&mut game, "ax");
    game.handle_key_at(300, Key::Backspace);
    assert_eq!(game.handle_key_at(400, Key::Char('b')), Action::Finish);
    assert_eq!(game.status(), Status::Finished);
    let statistics = game.finalize().unwrap();
    assert_eq!(statistics.correct_words(), 0);
    assert_eq!(statistics.incorrect_words(), 0);
    assert_eq!(statistics.correct_chars(), 2);
    assert_eq!(statistics.incorrect_chars(), 1);
}

#[test]
fn interrupt_ends_the_session_at_once() {
    let mut game = session(&["the", "cat", "sat"]);
    type_text(&mut game, "the cx");
    assert_eq!(game.handle_key_at(600, Key::Ctrl('c')), Action::Finish);
    assert_eq!(game.status(), Status::Interrupted);
    assert_eq!(game.history().words, vec!["the", "cat"]);
    assert_eq!(game.history().key_history.len(), 7);
    assert_eq!(game.history().key_history[6], (600, Key::Ctrl('c')));
    assert_eq!(game.handle_key_at(700, Key::Char('t')), Action::Finish);
    assert_eq!(game.history().key_history.len(), 7);
    let statistics = game.finalize().unwrap();
    assert_eq!(statistics.correct_words(), 1);
    assert_eq!(statistics.incorrect_words(), 0);
    assert_eq!(statistics.correct_chars(), 4);
    assert_eq!(statistics.incorrect_chars(), 1);
    assert_eq!(statistics.elapsed_ms(), 600);
}

#[test]
fn restart_key_asks_for_a_new_session() {
    let mut game = session(&["cat"]);
    type_text(&mut game, "c");
    assert_eq!(game.handle_key_at(100, Key::Char('\t')), Action::Restart);
    assert_eq!(game.status(), Status::Running);
    assert_eq!(game.history().key_history.len(), 1);
}

#[test]
fn other_keys_are_ignored_and_not_recorded() {
    let mut game = session(&["cat"]);
    assert_eq!(game.handle_key_at(0, Key::Other), Action::Ignore);
    assert_eq!(game.handle_key_at(0, Key::Ctrl('d')), Action::Ignore);
    assert_eq!(game.handle_key(Key::Other), Action::Ignore);
    assert!(game.history().key_history.is_empty());
    assert!(game.history().timer.is_none());
    assert_eq!(game.status(), Status::Running);
}

#[test]
fn every_accepted_key_is_recorded_with_its_time() {
    let mut game = session(&["ab", "c"]);
    game.handle_key_at(5, Key::Char('a'));
    game.handle_key_at(6, Key::Backspace);
    game.handle_key_at(7, Key::Other);
    game.handle_key_at(8, Key::Char(' '));
    game.handle_key_at(9, Key::Ctrl('c'));
    assert_eq!(
        game.history().key_history,
        vec![
            (5, Key::Char('a')),
            (6, Key::Backspace),
            (8, Key::Char(' ')),
            (9, Key::Ctrl('c')),
        ]
    );
    assert!(game.history().is_replayable());
}

#[test]
fn handle_key_records_with_the_clock() {
    let mut game = session(&["ab"]);
    assert_eq!(game.handle_key(Key::Char('a')), Action::Redraw);
    assert_eq!(game.handle_key(Key::Char('b')), Action::Finish);
    let history = game.history();
    assert!(history.timer.is_some());
    assert_eq!(history.key_history.len(), 2);
    assert_eq!(history.key_history[0].1, Key::Char('a'));
    assert_eq!(history.key_history[1].1, Key::Char('b'));
    assert!(history.key_history[0].0 <= history.key_history[1].0);
    let statistics = game.finalize().unwrap();
    assert_eq!(statistics.correct_words(), 1);
}

#[test]
fn one_word_session_from_first_key_to_statistics() {
    let mut game = session(&["cat"]);
    assert_eq!(game.handle_key_at(0, Key::Char('c')), Action::Redraw);
    assert_eq!(game.handle_key_at(100, Key::Char('a')), Action::Redraw);
    assert_eq!(game.handle_key_at(200, Key::Char('t')), Action::Finish);
    let statistics = game.finalize().unwrap();
    assert_eq!(statistics.correct_words(), 1);
    assert_eq!(statistics.incorrect_words(), 0);
    let wpm = statistics.wpm().unwrap();
    assert_eq!(wpm.numerator as f64 / wpm.denominator as f64, 180.0);
}

#[test]
fn new_draws_words_from_the_vocabulary() {
    let game = Game::new(GameMode::Words(4), DATA);
    assert_eq!(game.mode(), GameMode::Words(4));
    assert_eq!(game.peek_depth(), 3);
    assert_eq!(game.status(), Status::Running);
    assert_eq!(game.history().words.len(), 1);
    assert_eq!(game.upcoming().len(), 3);
    let shown = game.history().words[0];
    assert!(DATA.split(',').any(|word| word == shown));
    assert!(!game.upcoming().contains(&shown));
}

#[test]
fn words_draws_the_number_asked_for() {
    let game = Game::words(2, DATA).num_peek(5);
    assert_eq!(game.mode(), GameMode::Words(2));
    assert_eq!(game.upcoming().len(), 1);
    let game = Game::words(0, DATA);
    assert_eq!(game.status(), Status::Finished);
    let game = Game::words(25, DATA).num_peek(40);
    assert_eq!(game.upcoming().len(), 9);
}

#[test]
fn restart_keeps_the_mode_and_nothing_else() {
    let mut game = Game::words(3, DATA).num_peek(1);
    game.handle_key_at(0, Key::Char('x'));
    let fresh = game.restart(DATA);
    assert_eq!(fresh.mode(), GameMode::Words(3));
    assert_eq!(fresh.peek_depth(), 3);
    assert_eq!(fresh.status(), Status::Running);
    assert!(fresh.history().key_history.is_empty());
    assert_eq!(fresh.history().words.len(), 1);
}
