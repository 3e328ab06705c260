use typycal::Input;
use typycal::Span;
use typycal::Style;

fn span(ch: char, style: Style) -> Span {
    Span { ch, style }
}

#[test]
fn fresh_input_is_correct_and_incomplete() {
    let input = Input::new("cat");
    assert!(input.correct());
    assert!(!input.is_complete());
}

#[test]
fn empty_target_is_complete_at_once() {
    let mut input = Input::new("");
    assert!(input.is_complete());
    assert!(!input.update('a'));
    assert!(!input.is_complete());
    assert!(!input.correct());
}

#[test]
fn update_tells_whether_the_character_matched() {
    let mut input = Input::new("cat");
    assert!(input.update('c'));
    assert!(!input.update('c'));
    assert!(input.update('t'));
}

#[test]
fn complete_after_exactly_as_many_characters_as_the_target_has() {
    let mut input = Input::new("cat");
    assert!(!input.is_complete());
    input.update('c');
    assert!(!input.is_complete());
    input.update('a');
    assert!(!input.is_complete());
    input.update('t');
    assert!(input.is_complete());
}

#[test]
fn wrong_characters_complete_the_word_too() {
    let mut input = Input::new("cat");
    input.update('x');
    input.update('y');
    input.update('z');
    assert!(input.is_complete());
    assert!(!input.correct());
}

#[test]
fn overtyped_input_is_never_complete() {
    let mut input = Input::new("cat");
    for c in ['c', 'a', 't'] {
        assert!(input.update(c));
    }
    assert!(input.is_complete());
    for c in ['s', 't', 'u', 'v'] {
        assert!(!input.update(c));
        assert!(!input.is_complete());
    }
    assert!(!input.correct());
}

#[test]
fn overtyped_input_is_complete_again_after_deleting_the_excess() {
    let mut input = Input::new("cat");
    for c in ['c', 'a', 't', 's'] {
        input.update(c);
    }
    assert!(!input.is_complete());
    input.delete_one();
    assert!(input.is_complete());
    assert!(!input.correct());
}

#[test]
fn typed_c_x_t_against_cat() {
    let mut input = Input::new("cat");
    let flags = [input.update('c'), input.update('x'), input.update('t')];
    assert_eq!(flags, [true, false, true]);
    assert!(input.is_complete());
    assert!(!input.correct());
}

#[test]
fn correctness_is_not_restored_by_retyping() {
    let mut input = Input::new("cat");
    input.update('c');
    input.update('x');
    assert!(!input.correct());
    input.delete_one();
    assert!(!input.correct());
    assert!(input.update('a'));
    assert!(input.update('t'));
    assert!(input.is_complete());
    assert!(!input.correct());
    for _ in 0..5 {
        input.delete_one();
        assert!(!input.correct());
    }
}

#[test]
fn delete_one_at_the_start_changes_nothing() {
    let mut input = Input::new("cat");
    input.delete_one();
    input.delete_one();
    assert!(input.correct());
    assert!(!input.is_complete());
    assert_eq!(
        input.render(),
        vec![span('c', Style::Plain), span('a', Style::Plain), span('t', Style::Plain)]
    );
    assert!(input.update('c'));
}

#[test]
fn delete_one_steps_back_by_one() {
    let mut input = Input::new("cat");
    input.update('c');
    input.update('a');
    input.update('t');
    input.delete_one();
    assert!(!input.is_complete());
    assert!(input.update('t'));
    assert!(input.is_complete());
    input.delete_one();
    input.delete_one();
    input.delete_one();
    assert_eq!(
        input.render(),
        vec![span('c', Style::Plain), span('a', Style::Plain), span('t', Style::Plain)]
    );
}

#[test]
fn render_styles_typed_and_untyped_characters() {
    let mut input = Input::new("cat");
    input.update('c');
    input.update('x');
    assert_eq!(
        input.render(),
        vec![span('c', Style::Correct), span('a', Style::Incorrect), span('t', Style::Plain)]
    );
}

#[test]
fn render_shows_overtyped_characters_as_incorrect() {
    let mut input = Input::new("cat");
    for c in ['c', 'a', 't', 'x', 'y'] {
        input.update(c);
    }
    assert_eq!(
        input.render(),
        vec![
            span('c', Style::Correct),
            span('a', Style::Correct),
            span('t', Style::Correct),
            span('x', Style::Incorrect),
            span('y', Style::Incorrect),
        ]
    );
}

#[test]
fn render_of_an_empty_target_shows_only_what_was_typed() {
    let mut input = Input::new("");
    assert_eq!(input.render(), vec![]);
    input.update('q');
    assert_eq!(input.render(), vec![span('q', Style::Incorrect)]);
}

#[test]
fn a_word_is_measured_in_characters() {
    let mut input = Input::new("héé");
    assert!(input.update('h'));
    assert!(input.update('é'));
    assert!(!input.is_complete());
    assert!(input.update('é'));
    assert!(input.is_complete());
    assert!(input.correct());
    assert_eq!(
        input.render(),
        vec![span('h', Style::Correct), span('é', Style::Correct), span('é', Style::Correct)]
    );
}
