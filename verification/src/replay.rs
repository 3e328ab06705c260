//! The mathematical replay of a key log against a word list. The statistics
//! are defined by it.

use crate::input::WordState;
use crate::key::Key;
use vstd::prelude::*;

verus! {

/// The characters of each word of a list.
pub open spec fn word_chars(words: Seq<&'static str>) -> Seq<Seq<char>> {
    Seq::new(words.len(), |i: int| words[i]@)
}

/// What a replay has counted, and the time of the last event it consumed.
pub struct Outcome {
    pub correct_chars: nat,
    pub incorrect_chars: nat,
    pub correct_words: nat,
    pub incorrect_words: nat,
    pub elapsed_ms: u128,
}

/// The state of a replay between two events.
pub struct Replay {
    /// The index of the word being typed.
    pub word: int,
    /// The state of that word.
    pub input: WordState,
    /// That word has been counted already: it was the last of the list and
    /// its last character completed it correctly.
    pub counted: bool,
    pub correct_chars: nat,
    pub incorrect_chars: nat,
    pub correct_words: nat,
    pub incorrect_words: nat,
    /// The time of the last event consumed.
    pub elapsed_ms: u128,
    /// No further event is consumed.
    pub stopped: bool,
    /// A key was consumed that no log may hold.
    pub corrupt: bool,
}

impl Replay {
    /// The state before the first event: at the first word, nothing counted.
    /// Without a word there is nothing to replay.
    pub open spec fn start(words: Seq<Seq<char>>) -> Replay {
        Replay {
            word: 0,
            input: WordState::fresh(
                if words.len() > 0 {
                    words[0]
                } else {
                    Seq::empty()
                },
            ),
            counted: false,
            correct_chars: 0,
            incorrect_chars: 0,
            correct_words: 0,
            incorrect_words: 0,
            elapsed_ms: 0,
            stopped: words.len() == 0,
            corrupt: false,
        }
    }

    /// No word follows the current one.
    pub open spec fn on_last_word(self, words: Seq<Seq<char>>) -> bool {
        self.word + 1 >= words.len()
    }

    /// The delimiter ends the current word. Unless it was counted when its
    /// last character arrived, it counts as correct if it is complete and
    /// every character entered matched, else as incorrect. The replay goes
    /// on with the next word, or stops after the last.
    pub open spec fn delimiter(self, words: Seq<Seq<char>>) -> Replay {
        let right = self.input.is_complete() && self.input.correct;
        let tallied = Replay {
            correct_words: if !self.counted && right {
                self.correct_words + 1
            } else {
                self.correct_words
            },
            incorrect_words: if !self.counted && !right {
                self.incorrect_words + 1
            } else {
                self.incorrect_words
            },
            ..self
        };
        if self.on_last_word(words) {
            Replay { stopped: true, ..tallied }
        } else {
            Replay {
                word: self.word + 1,
                input: WordState::fresh(words[self.word + 1]),
                counted: false,
                ..tallied
            }
        }
    }

    /// A character is entered into the current word and counted as correct
    /// or incorrect. If it completes the last word of the list with every
    /// character matched, the word counts as correct at once: no delimiter
    /// need follow.
    pub open spec fn character(self, words: Seq<Seq<char>>, c: char) -> Replay {
        let matched = self.input.accepts(c);
        let input = self.input.typed(c);
        let finished = input.is_complete() && input.correct && self.on_last_word(words)
            && !self.counted;
        Replay {
            input,
            correct_chars: if matched {
                self.correct_chars + 1
            } else {
                self.correct_chars
            },
            incorrect_chars: if matched {
                self.incorrect_chars
            } else {
                self.incorrect_chars + 1
            },
            correct_words: if finished {
                self.correct_words + 1
            } else {
                self.correct_words
            },
            counted: self.counted || finished,
            ..self
        }
    }

    /// The state after one more event. A stopped replay consumes nothing.
    pub open spec fn step(self, words: Seq<Seq<char>>, elapsed_ms: u128, key: Key) -> Replay {
        if self.stopped {
            self
        } else {
            let now = Replay { elapsed_ms, ..self };
            match key {
                Key::Char(c) => if c == ' ' {
                    now.delimiter(words)
                } else {
                    now.character(words, c)
                },
                Key::Backspace => Replay { input: now.input.erased(), ..now },
                Key::Ctrl(c) => if c == 'c' {
                    Replay { stopped: true, ..now }
                } else {
                    Replay { stopped: true, corrupt: true, ..now }
                },
                Key::Other => Replay { stopped: true, corrupt: true, ..now },
            }
        }
    }

    /// What has been counted.
    pub open spec fn outcome(self) -> Outcome {
        Outcome {
            correct_chars: self.correct_chars,
            incorrect_chars: self.incorrect_chars,
            correct_words: self.correct_words,
            incorrect_words: self.incorrect_words,
            elapsed_ms: self.elapsed_ms,
        }
    }
}

/// The state after the whole log was replayed, first event to last.
pub open spec fn replay(words: Seq<Seq<char>>, log: Seq<(u128, Key)>) -> Replay
    decreases log.len(),
{
    if log.len() == 0 {
        Replay::start(words)
    } else {
        replay(words, log.drop_last()).step(words, log.last().0, log.last().1)
    }
}

/// The statistics of a log: none without a word or without an event.
pub open spec fn outcome(words: Seq<Seq<char>>, log: Seq<(u128, Key)>) -> Option<Outcome> {
    if words.len() == 0 || log.len() == 0 {
        None
    } else {
        Some(replay(words, log).outcome())
    }
}

/// Replaying one event more is one step from the replay so far.
pub proof fn replay_extends(words: Seq<Seq<char>>, log: Seq<(u128, Key)>, n: int)
    requires
        0 <= n < log.len(),
    ensures
        replay(words, log.take(n + 1)) == replay(words, log.take(n)).step(
            words,
            log[n].0,
            log[n].1,
        ),
{
    assert(log.take(n + 1).drop_last() == log.take(n));
}

/// Once a replay has stopped, the rest of the log changes nothing.
pub proof fn stopped_replay_ignores_the_rest(
    words: Seq<Seq<char>>,
    log: Seq<(u128, Key)>,
    n: int,
)
    requires
        0 <= n <= log.len(),
        replay(words, log.take(n)).stopped,
    ensures
        replay(words, log) == replay(words, log.take(n)),
    decreases log.len() - n,
{
    if n == log.len() {
        assert(log.take(n) == log);
    } else {
        replay_extends(words, log, n);
        stopped_replay_ignores_the_rest(words, log, n + 1);
    }
}

/// The statistics are a function of the events and of the words'
/// characters: the same log replayed against the same words gives the same
/// result, whatever else differs.
pub proof fn replay_is_deterministic(
    words: Seq<&'static str>,
    log: Seq<(u128, Key)>,
    other_words: Seq<&'static str>,
    other_log: Seq<(u128, Key)>,
)
    requires
        log == other_log,
        words.len() == other_words.len(),
        forall|i: int| 0 <= i < words.len() ==> words[i]@ == other_words[i]@,
    ensures
        outcome(word_chars(words), log) == outcome(word_chars(other_words), other_log),
{
    assert(word_chars(words) == word_chars(other_words));
}

/// Without a word there is no result, whatever the log holds.
pub proof fn no_words_no_result(log: Seq<(u128, Key)>)
    ensures
        outcome(Seq::empty(), log) is None,
{
}

/// The replay stops at an interrupt: the events after it change nothing.
pub proof fn replay_stops_at_interrupt(words: Seq<Seq<char>>, log: Seq<(u128, Key)>, n: int)
    requires
        0 <= n < log.len(),
        log[n].1 == Key::Ctrl('c'),
    ensures
        replay(words, log) == replay(words, log.take(n + 1)),
        outcome(words, log) == outcome(words, log.take(n + 1)),
{
    replay_extends(words, log, n);
    stopped_replay_ignores_the_rest(words, log, n + 1);
}

/// A log that holds only keys of the kinds a log may hold is never corrupt.
pub proof fn replayable_log_is_sound(words: Seq<Seq<char>>, log: Seq<(u128, Key)>)
    requires
        forall|i: int| 0 <= i < log.len() ==> (#[trigger] log[i]).1.replayable(),
    ensures
        !replay(words, log).corrupt,
    decreases log.len(),
{
    if log.len() > 0 {
        replayable_log_is_sound(words, log.drop_last());
        assert(log.last().1.replayable());
    }
}

/// No word is counted twice, and no event counts more than one character:
/// the words counted are at most the words of the list, and the characters
/// counted at most the events of the log.
pub proof fn replay_counts_are_bounded(words: Seq<Seq<char>>, log: Seq<(u128, Key)>)
    requires
        words.len() > 0,
    ensures
        replay(words, log).correct_words + replay(words, log).incorrect_words <= words.len(),
        replay(words, log).correct_chars + replay(words, log).incorrect_chars <= log.len(),
        0 <= replay(words, log).word < words.len(),
        !replay(words, log).stopped ==> replay(words, log).correct_words + replay(
            words,
            log,
        ).incorrect_words == replay(words, log).word + (if replay(words, log).counted {
            1int
        } else {
            0int
        }),
    decreases log.len(),
{
    if log.len() > 0 {
        replay_counts_are_bounded(words, log.drop_last());
    }
}

} // verus!
