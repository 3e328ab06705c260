//! Typing statistics, computed by replaying a session's key log.

use crate::history::History;
use crate::input::Input;
use crate::key::Key;
use crate::replay::outcome;
use crate::replay::replay;
use crate::replay::replay_extends;
use crate::replay::stopped_replay_ignores_the_rest;
use crate::replay::word_chars;
use crate::replay::Outcome;
use crate::replay::Replay;
use vstd::prelude::*;

verus! {

/// Milliseconds in a minute over characters in a word: a count of characters
/// per millisecond times this is a count of words per minute.
pub const WORD_RATE: u128 = 12000;

/// A quotient of two whole numbers. The denominator is never zero.
#[derive(Clone, Copy, Debug, PartialEq, Eq, Structural)]
pub struct Ratio {
    pub numerator: u128,
    pub denominator: u128,
}

impl Outcome {
    /// All the characters counted, correct or not.
    pub open spec fn typed_chars(self) -> nat {
        self.correct_chars + self.incorrect_chars
    }

    /// Correct characters per millisecond, scaled to words per minute:
    /// numerator and denominator. Undefined while no time has passed.
    pub open spec fn wpm(self) -> Option<(nat, nat)> {
        if self.elapsed_ms == 0 {
            None
        } else {
            Some((self.correct_chars * 12000, self.elapsed_ms as nat))
        }
    }

    /// All characters per millisecond, scaled to words per minute.
    /// Undefined while no time has passed.
    pub open spec fn raw_wpm(self) -> Option<(nat, nat)> {
        if self.elapsed_ms == 0 {
            None
        } else {
            Some((self.typed_chars() * 12000, self.elapsed_ms as nat))
        }
    }

    /// Correct characters over all characters. Undefined while no
    /// character was counted.
    pub open spec fn accuracy(self) -> Option<(nat, nat)> {
        if self.typed_chars() == 0 {
            None
        } else {
            Some((self.correct_chars, self.typed_chars()))
        }
    }
}

/// What `ratio` holds, if anything.
pub open spec fn quotient(ratio: Option<Ratio>) -> Option<(nat, nat)> {
    match ratio {
        Some(r) => Some((r.numerator as nat, r.denominator as nat)),
        None => None,
    }
}

/// The result of a session: what was typed right and wrong, and how long it
/// took.
#[derive(Debug)]
pub struct Statistics {
    correct_chars: usize,
    incorrect_chars: usize,
    time_ms: u128,
    correct_words: usize,
    incorrect_words: usize,
}

impl View for Statistics {
    type V = Outcome;

    closed spec fn view(&self) -> Outcome {
        Outcome {
            correct_chars: self.correct_chars as nat,
            incorrect_chars: self.incorrect_chars as nat,
            correct_words: self.correct_words as nat,
            incorrect_words: self.incorrect_words as nat,
            elapsed_ms: self.time_ms,
        }
    }
}

impl Statistics {
    /// Replays `history` against `words` and counts: see [`replay`]. There
    /// is no result without a word or without an event.
    pub fn calculate(history: History, words: Vec<&'static str>) -> (statistics: Option<
        Statistics,
    >)
        requires
            !replay(word_chars(words@), history.key_history@).corrupt,
        ensures
            statistics is Some <==> words@.len() > 0 && history.key_history@.len() > 0,
            match statistics {
                Some(s) => Some(s@) == outcome(
                    word_chars(words@),
                    history.key_history@,
                ),
                None => outcome(word_chars(words@), history.key_history@) is None,
            },
    {
        let events = history.key_history.len();
        if words.len() == 0 || events == 0 {
            return None;
        }
        let ghost targets = word_chars(words@);
        let ghost log = history.key_history@;
        let mut correct_words: usize = 0;
        let mut incorrect_words: usize = 0;
        let mut correct_chars: usize = 0;
        let mut incorrect_chars: usize = 0;
        let mut word: usize = 0;
        let mut current_input = Input::new(words[0]);
        let mut counted = false;
        let mut final_time: u128 = 0;
        let mut stopped = false;
        let mut i: usize = 0;
        proof {
            assert(log.take(0) == Seq::<(u128, Key)>::empty());
        }
        while i < events && !stopped
            invariant
                targets == word_chars(words@),
                log == history.key_history@,
                events == log.len(),
                !replay(targets, log).corrupt,
                i <= events,
                word < words@.len(),
                current_input.wf(),
                correct_chars + incorrect_chars <= i,
                correct_words + incorrect_words <= i,
                replay(targets, log.take(i as int)) == (Replay {
                    word: word as int,
                    input: current_input@,
                    counted,
                    correct_chars: correct_chars as nat,
                    incorrect_chars: incorrect_chars as nat,
                    correct_words: correct_words as nat,
                    incorrect_words: incorrect_words as nat,
                    elapsed_ms: final_time,
                    stopped,
                    corrupt: false,
                }),
            decreases events - i,
        {
            let (t, k) = history.key_history[i];
            proof {
                replay_extends(targets, log, i as int);
                if replay(targets, log.take(i + 1)).stopped {
                    stopped_replay_ignores_the_rest(targets, log, i + 1);
                }
            }
            final_time = t;
            i = i + 1;
            let on_last_word = word == words.len() - 1;
            match k {
                Key::Char(c) => {
                    if c == ' ' {
                        if !counted {
                            if current_input.is_complete() && current_input.correct() {
                                correct_words = correct_words + 1;
                            } else {
                                incorrect_words = incorrect_words + 1;
                            }
                        }
                        if on_last_word {
                            stopped = true;
                        } else {
                            word = word + 1;
                            current_input = Input::new(words[word]);
                            counted = false;
                        }
                    } else {
                        let correct = current_input.update(c);
                        if correct {
                            correct_chars = correct_chars + 1;
                        } else {
                            incorrect_chars = incorrect_chars + 1;
                        }
                        if current_input.is_complete() && current_input.correct() && on_last_word
                            && !counted {
                            correct_words = correct_words + 1;
                            counted = true;
                        }
                    }
                },
                Key::Backspace => {
                    current_input.delete_one();
                },
                Key::Ctrl(c) => {
                    assert(c == 'c');
                    stopped = true;
                },
                Key::Other => {
                    assert(false);
                },
            }
        }
        proof {
            if stopped {
                stopped_replay_ignores_the_rest(targets, log, i as int);
            } else {
                assert(log.take(i as int) == log);
            }
        }
        Some(
            Statistics {
                correct_chars,
                incorrect_chars,
                time_ms: final_time,
                correct_words,
                incorrect_words,
            },
        )
    }

    /// Words per minute, counting the correct characters only. There is no
    /// speed while no time has passed.
    pub fn wpm(&self) -> (speed: Option<Ratio>)
        ensures
            quotient(speed) == self@.wpm(),
    {
        if self.time_ms == 0 {
            None
        } else {
            Some(Ratio { numerator: self.correct_chars as u128 * WORD_RATE, denominator: self.time_ms })
        }
    }

    /// Words per minute, counting every character.
    pub fn raw_wpm(&self) -> (speed: Option<Ratio>)
        ensures
            quotient(speed) == self@.raw_wpm(),
    {
        if self.time_ms == 0 {
            None
        } else {
            let typed = self.correct_chars as u128 + self.incorrect_chars as u128;
            Some(Ratio { numerator: typed * WORD_RATE, denominator: self.time_ms })
        }
    }

    /// The share of the characters that were correct. There is none while
    /// no character was counted.
    pub fn accuracy(&self) -> (share: Option<Ratio>)
        ensures
            quotient(share) == self@.accuracy(),
    {
        let typed = self.correct_chars as u128 + self.incorrect_chars as u128;
        if typed == 0 {
            None
        } else {
            Some(Ratio { numerator: self.correct_chars as u128, denominator: typed })
        }
    }

    /// The milliseconds from the first event to the last one replayed.
    pub fn elapsed_ms(&self) -> (elapsed: u128)
        ensures
            elapsed == self@.elapsed_ms,
    {
        self.time_ms
    }

    pub fn correct_chars(&self) -> (count: usize)
        ensures
            count == self@.correct_chars,
    {
        self.correct_chars
    }

    pub fn incorrect_chars(&self) -> (count: usize)
        ensures
            count == self@.incorrect_chars,
    {
        self.incorrect_chars
    }

    pub fn correct_words(&self) -> (count: usize)
        ensures
            count == self@.correct_words,
    {
        self.correct_words
    }

    pub fn incorrect_words(&self) -> (count: usize)
        ensures
            count == self@.incorrect_words,
    {
        self.incorrect_words
    }
}

/// Where no character was typed wrong, the accuracy is one, and the speed
/// that counts correct characters is the speed that counts all of them.
/// Where no character was counted at all there is no accuracy.
pub proof fn flawless_typing_has_full_accuracy(result: Outcome)
    requires
        result.incorrect_chars == 0,
    ensures
        result.wpm() == result.raw_wpm(),
        result.typed_chars() > 0 ==> (result.accuracy() matches Some(share) && share.0
            == share.1),
        result.typed_chars() == 0 ==> result.accuracy() is None,
{
}

/// The accuracy lies between zero and one, and the speed that counts
/// correct characters never exceeds the speed that counts all.
pub proof fn accuracy_is_a_share(result: Outcome)
    ensures
        result.accuracy() matches Some(share) ==> 0 <= share.0 <= share.1 && share.1 > 0,
        result.wpm() matches Some(net) ==> (result.raw_wpm() matches Some(raw) && net.0 <= raw.0
            && net.1 == raw.1 && net.1 > 0),
{
    assert(result.correct_chars * 12000 <= result.typed_chars() * 12000);
}

} // verus!
