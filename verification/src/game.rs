//! The session engine: which word is current, what each key does to it, and
//! when the session ends.

use crate::history::History;
use crate::input::Input;
use crate::input::Span;
use crate::input::WordState;
use crate::key::Key;
use crate::replay::outcome;
use crate::replay::replay;
use crate::replay::replayable_log_is_sound;
use crate::replay::word_chars;
use crate::statistics::Statistics;
use crate::vocabulary::drawn_from;
use crate::vocabulary::sample;
use crate::vocabulary::split_on;
use crate::vocabulary::split_words;
use crate::vocabulary::SEPARATOR;
use vstd::prelude::*;

verus! {

/// The key that abandons the session and starts a new one.
pub const RESTART: char = '\t';

/// The key that ends the current word.
pub const DELIMITER: char = ' ';

/// The number of upcoming words shown unless the caller asks otherwise.
pub const DEFAULT_PEEK: u16 = 3;

/// What a session consists of.
#[derive(Clone, Copy, Debug, PartialEq, Eq, Structural)]
pub enum GameMode {
    /// A fixed number of words.
    Words(usize),
}

impl Default for GameMode {
    fn default() -> (mode: Self)
        ensures
            mode == GameMode::Words(10),
    {
        GameMode::Words(10)
    }
}

impl GameMode {
    /// The number of words that the mode asks for.
    pub open spec fn word_count(self) -> nat {
        match self {
            GameMode::Words(n) => n as nat,
        }
    }
}

/// Whether a session is going on, and how it ended if it is not.
#[derive(Clone, Copy, Debug, PartialEq, Eq, Structural)]
pub enum Status {
    /// Keys are being accepted.
    Running,
    /// The last word was ended.
    Finished,
    /// The interrupt key ended the session.
    Interrupted,
}

/// What the terminal is to do after a key was handled.
#[derive(Clone, Copy, Debug, PartialEq, Eq, Structural)]
pub enum Action {
    /// A character was entered: write the current word again.
    Redraw,
    /// A character was deleted: clear the line, then write the current word.
    Erase,
    /// Another word is current: show it, and the upcoming words below it.
    NextWord,
    /// The session is over: show the statistics.
    Finish,
    /// Abandon this session and begin a new one.
    Restart,
    /// The key means nothing here.
    Ignore,
}

/// The words of `word_data` that a session in `mode` is to show: as many as
/// the mode asks for, drawn at random without replacement, or all of them if
/// there are no more.
pub fn initialize_words(mode: &GameMode, word_data: &'static str) -> (words: Vec<&'static str>)
    ensures
        words@.len() == if mode.word_count() <= split_on(word_data@, SEPARATOR).len() {
            mode.word_count()
        } else {
            split_on(word_data@, SEPARATOR).len()
        },
        drawn_from(word_chars(words@), split_on(word_data@, SEPARATOR)),
{
    let vocabulary = split_words(word_data);
    match mode {
        GameMode::Words(n) => sample(&vocabulary, *n),
    }
}

/// The mathematical state of a session.
pub struct Session {
    pub mode: GameMode,
    /// The characters of each target word.
    pub words: Seq<Seq<char>>,
    /// How many upcoming words are shown.
    pub num_peek: u16,
    /// The index of the current word.
    pub position: int,
    /// The state of the current word.
    pub input: WordState,
    /// The keys accepted so far, each with its elapsed milliseconds.
    pub log: Seq<(u128, Key)>,
    /// The words shown so far.
    pub shown: Seq<Seq<char>>,
    pub status: Status,
}

impl Session {
    /// A session at its start: the first word is shown and awaits input.
    /// Without a word the session is over before it began.
    pub open spec fn begin(mode: GameMode, words: Seq<Seq<char>>) -> Session {
        Session {
            mode,
            words,
            num_peek: DEFAULT_PEEK,
            position: 0,
            input: WordState::fresh(
                if words.len() > 0 {
                    words[0]
                } else {
                    Seq::empty()
                },
            ),
            log: Seq::empty(),
            shown: if words.len() > 0 {
                seq![words[0]]
            } else {
                Seq::empty()
            },
            status: if words.len() > 0 {
                Status::Running
            } else {
                Status::Finished
            },
        }
    }

    /// No word follows the current one.
    pub open spec fn on_last_word(self) -> bool {
        self.position + 1 >= self.words.len()
    }

    /// The keys that a running session acts on and records: characters but
    /// for the restart key, the deletion, the interrupt.
    pub open spec fn accepts(self, key: Key) -> bool {
        self.status == Status::Running && match key {
            Key::Char(c) => c != RESTART,
            Key::Backspace => true,
            Key::Ctrl(c) => c == 'c',
            Key::Other => false,
        }
    }

    /// The session with `key` appended to its log, if it is accepted.
    pub open spec fn recorded(self, elapsed_ms: u128, key: Key) -> Session {
        if self.accepts(key) {
            Session { log: self.log.push((elapsed_ms, key)), ..self }
        } else {
            self
        }
    }

    /// The current word is ended: the next one is shown, or the session is
    /// finished if there is none.
    pub open spec fn advanced(self) -> Session {
        if self.on_last_word() {
            Session { status: Status::Finished, ..self }
        } else {
            Session {
                position: self.position + 1,
                input: WordState::fresh(self.words[self.position + 1]),
                shown: self.shown.push(self.words[self.position + 1]),
                ..self
            }
        }
    }

    /// The character `c` is entered into the current word. The session is
    /// finished if `c` matched and completed the last word.
    pub open spec fn entered(self, c: char) -> Session {
        let input = self.input.typed(c);
        Session {
            input,
            status: if self.input.accepts(c) && self.on_last_word() && input.is_complete() {
                Status::Finished
            } else {
                Status::Running
            },
            ..self
        }
    }

    /// What `key` does to the words and the status, the log apart.
    pub open spec fn acted(self, key: Key) -> Session {
        if !self.accepts(key) {
            self
        } else {
            match key {
                Key::Char(c) => if c == DELIMITER {
                    self.advanced()
                } else {
                    self.entered(c)
                },
                Key::Backspace => Session { input: self.input.erased(), ..self },
                _ => Session { status: Status::Interrupted, ..self },
            }
        }
    }

    /// The session after `key` arrived at `elapsed_ms`: an accepted key is
    /// recorded first and acted on then; any other changes nothing.
    pub open spec fn step(self, elapsed_ms: u128, key: Key) -> Session {
        self.recorded(elapsed_ms, key).acted(key)
    }

    /// The session after a sequence of keys, each with its time of arrival.
    pub open spec fn run(self, events: Seq<(u128, Key)>) -> Session
        decreases events.len(),
    {
        if events.len() == 0 {
            self
        } else {
            self.run(events.drop_last()).step(events.last().0, events.last().1)
        }
    }

    /// What the terminal is to do after `key`.
    pub open spec fn action(self, key: Key) -> Action {
        if self.status != Status::Running {
            Action::Finish
        } else {
            match key {
                Key::Char(c) => if c == RESTART {
                    Action::Restart
                } else if self.acted(key).status != Status::Running {
                    Action::Finish
                } else if c == DELIMITER {
                    Action::NextWord
                } else {
                    Action::Redraw
                },
                Key::Backspace => Action::Erase,
                Key::Ctrl(c) => if c == 'c' {
                    Action::Finish
                } else {
                    Action::Ignore
                },
                Key::Other => Action::Ignore,
            }
        }
    }

    /// The words shown below the current one: the next `num_peek` of the
    /// list, or as many as are left.
    pub open spec fn upcoming(self) -> Seq<Seq<char>> {
        let first = self.position + 1;
        let end = if first + self.num_peek <= self.words.len() {
            first + self.num_peek
        } else {
            self.words.len() as int
        };
        if first <= end {
            self.words.subrange(first, end)
        } else {
            Seq::empty()
        }
    }
}

/// The log of a session is a faithful source for the replay. Whatever keys
/// arrive, the log holds nothing that the replay cannot take, and while the
/// session is running the replay of its log stands where the session stands:
/// at the same word, with the same characters entered, the same correctness
/// flag.
pub proof fn replay_follows_the_session(
    mode: GameMode,
    words: Seq<Seq<char>>,
    events: Seq<(u128, Key)>,
)
    ensures
        ({
            let session = Session::begin(mode, words).run(events);
            let replayed = replay(words, session.log);
            &&& session.words == words
            &&& session.log.len() <= events.len()
            &&& !replayed.corrupt
            &&& session.status == Status::Running ==> {
                &&& !replayed.stopped
                &&& 0 <= session.position < words.len()
                &&& replayed.word == session.position
                &&& replayed.input == session.input
            }
        }),
    decreases events.len(),
{
    if events.len() > 0 {
        let before = Session::begin(mode, words).run(events.drop_last());
        let key = events.last().1;
        replay_follows_the_session(mode, words, events.drop_last());
        if before.accepts(key) {
            let after = before.step(events.last().0, key);
            assert(after.log.drop_last() == before.log);
        }
    }
}

/// A typing session over a list of target words.
pub struct Game {
    mode: GameMode,
    words: Vec<&'static str>,
    history: History,
    num_peek: u16,
    position: usize,
    input: Input<'static>,
    status: Status,
}

impl View for Game {
    type V = Session;

    closed spec fn view(&self) -> Session {
        Session {
            mode: self.mode,
            words: word_chars(self.words@),
            num_peek: self.num_peek,
            position: self.position as int,
            input: self.input@,
            log: self.history.key_history@,
            shown: word_chars(self.history.words@),
            status: self.status,
        }
    }
}

impl Game {
    /// The current word is one of the list and the input is typed against
    /// it; the log holds accepted keys only.
    pub closed spec fn wf(&self) -> bool {
        &&& self.input.wf()
        &&& self.history.replayable()
        &&& self.status == Status::Running ==> self.position < self.words@.len()
            && self.input@.target == self.words@[self.position as int]@
    }

    /// A session over words drawn at random from the comma-separated
    /// `word_data`, as many as `mode` asks for.
    pub fn new(mode: GameMode, word_data: &'static str) -> (game: Self)
        ensures
            game.wf(),
            game@ == Session::begin(mode, game@.words),
            game@.words.len() == if mode.word_count() <= split_on(word_data@, SEPARATOR).len() {
                mode.word_count()
            } else {
                split_on(word_data@, SEPARATOR).len()
            },
            drawn_from(game@.words, split_on(word_data@, SEPARATOR)),
    {
        let words = initialize_words(&mode, word_data);
        Game::with_words(mode, words)
    }

    /// A session over the given words, in their order.
    pub fn with_words(mode: GameMode, words: Vec<&'static str>) -> (game: Self)
        ensures
            game.wf(),
            game@ == Session::begin(mode, word_chars(words@)),
    {
        let mut history = History::default();
        let mut status = Status::Finished;
        let mut first: &'static str = "";
        if words.len() > 0 {
            first = words[0];
            history.words.push(first);
            status = Status::Running;
        }
        let input = Input::new(first);
        proof {
            reveal_strlit("");
            assert(word_chars(history.words@) == Session::begin(mode, word_chars(words@)).shown);
            assert(input@.target == Session::begin(mode, word_chars(words@)).input.target);
        }
        let game = Game { mode, words, history, num_peek: DEFAULT_PEEK, position: 0, input, status };
        proof {
            assert(game@.log == Seq::<(u128, Key)>::empty());
        }
        game
    }

    /// A session over `n` words drawn at random from `word_data`.
    pub fn words(n: usize, word_data: &'static str) -> (game: Self)
        ensures
            game.wf(),
            game@ == Session::begin(GameMode::Words(n), game@.words),
            game@.words.len() == if n <= split_on(word_data@, SEPARATOR).len() {
                n as nat
            } else {
                split_on(word_data@, SEPARATOR).len()
            },
            drawn_from(game@.words, split_on(word_data@, SEPARATOR)),
    {
        Game::new(GameMode::Words(n), word_data)
    }

    /// A new session in the same mode, over words drawn afresh from
    /// `word_data`. Nothing of this session is kept.
    pub fn restart(&self, word_data: &'static str) -> (game: Self)
        ensures
            game.wf(),
            game@ == Session::begin(self@.mode, game@.words),
            game@.words.len() == if self@.mode.word_count() <= split_on(
                word_data@,
                SEPARATOR,
            ).len() {
                self@.mode.word_count()
            } else {
                split_on(word_data@, SEPARATOR).len()
            },
            drawn_from(game@.words, split_on(word_data@, SEPARATOR)),
    {
        Game::new(self.mode, word_data)
    }

    /// The same session, showing `n` upcoming words.
    pub fn num_peek(self, n: u16) -> (game: Self)
        requires
            self.wf(),
        ensures
            game.wf(),
            game@ == (Session { num_peek: n, ..self@ }),
    {
        let mut game = self;
        game.num_peek = n;
        game
    }

    /// Whether a running session acts on `key` and records it.
    fn accepts(&self, key: Key) -> (accepted: bool)
        ensures
            accepted == self@.accepts(key),
    {
        self.status == Status::Running && match key {
            Key::Char(c) => c != RESTART,
            Key::Backspace => true,
            Key::Ctrl(c) => c == 'c',
            Key::Other => false,
        }
    }

    /// Does to the words and the status what `key` asks for. The key is in
    /// the log already, if it is one that is recorded.
    fn act(&mut self, key: Key) -> (action: Action)
        requires
            old(self).wf(),
        ensures
            final(self).wf(),
            final(self)@ == old(self)@.acted(key),
            action == old(self)@.action(key),
    {
        if !self.accepts(key) {
            return if self.status != Status::Running {
                Action::Finish
            } else {
                match key {
                    Key::Char(_) => Action::Restart,
                    _ => Action::Ignore,
                }
            };
        }
        let on_last_word = self.position == self.words.len() - 1;
        match key {
            Key::Char(c) => {
                if c == DELIMITER {
                    if on_last_word {
                        self.status = Status::Finished;
                        Action::Finish
                    } else {
                        self.position = self.position + 1;
                        let next: &'static str = self.words[self.position];
                        self.input = Input::new(next);
                        self.history.words.push(next);
                        proof {
                            assert(word_chars(self.history.words@) == word_chars(
                                old(self).history.words@,
                            ).push(next@));
                        }
                        Action::NextWord
                    }
                } else {
                    let correct = self.input.update(c);
                    if correct && on_last_word && self.input.is_complete() {
                        self.status = Status::Finished;
                        Action::Finish
                    } else {
                        Action::Redraw
                    }
                }
            },
            Key::Backspace => {
                self.input.delete_one();
                Action::Erase
            },
            _ => {
                self.status = Status::Interrupted;
                Action::Finish
            },
        }
    }

    /// Handles a key that arrived `elapsed_ms` after the first one: records
    /// it if the session accepts it, then acts on it.
    pub fn handle_key_at(&mut self, elapsed_ms: u128, key: Key) -> (action: Action)
        requires
            old(self).wf(),
        ensures
            final(self).wf(),
            final(self)@ == old(self)@.step(elapsed_ms, key),
            action == old(self)@.action(key),
    {
        if self.accepts(key) {
            self.history.record_at(elapsed_ms, key);
        }
        self.act(key)
    }

    /// Handles a key that arrived now: records it with the time that the
    /// clock gives, if the session accepts it, then acts on it.
    pub fn handle_key(&mut self, key: Key) -> (action: Action)
        requires
            old(self).wf(),
        ensures
            final(self).wf(),
            exists|elapsed_ms: u128| final(self)@ == old(self)@.step(elapsed_ms, key),
            action == old(self)@.action(key),
    {
        if self.accepts(key) {
            self.history.record_key(key);
            proof {
                let elapsed_ms = self.history.key_history@.last().0;
                assert(self.history.key_history@ == old(self).history.key_history@.push(
                    (elapsed_ms, key),
                ));
            }
        }
        let ghost recorded = self@;
        let action = self.act(key);
        proof {
            let elapsed_ms = if old(self)@.accepts(key) {
                recorded.log.last().0
            } else {
                0u128
            };
            assert(recorded == old(self)@.recorded(elapsed_ms, key));
            assert(self@ == old(self)@.step(elapsed_ms, key));
        }
        action
    }

    /// The current word as it is to be displayed.
    pub fn render(&self) -> (spans: Vec<Span>)
        requires
            self.wf(),
        ensures
            spans@ == self@.input.rendered(),
    {
        self.input.render()
    }

    /// The words to show below the current one.
    pub fn upcoming(&self) -> (next: Vec<&'static str>)
        ensures
            word_chars(next@) == self@.upcoming(),
    {
        let mut next: Vec<&'static str> = Vec::new();
        let total = self.words.len();
        if self.position >= total {
            return next;
        }
        let first = self.position + 1;
        let left = total - first;
        let count = if (self.num_peek as usize) <= left {
            self.num_peek as usize
        } else {
            left
        };
        let mut i: usize = 0;
        while i < count
            invariant
                i <= count,
                first + count <= total,
                total == self.words@.len(),
                next@.len() == i,
                forall|k: int| 0 <= k < i ==> next@[k] == self.words@[first + k],
            decreases count - i,
        {
            next.push(self.words[first + i]);
            i = i + 1;
        }
        proof {
            assert(word_chars(next@) == self@.upcoming());
        }
        next
    }

    /// The statistics of the session so far: the log replayed against the
    /// words. There are none while nothing was typed.
    pub fn finalize(self) -> (statistics: Option<Statistics>)
        requires
            self.wf(),
        ensures
            statistics is Some <==> self@.words.len() > 0 && self@.log.len() > 0,
            match statistics {
                Some(s) => Some(s@) == outcome(self@.words, self@.log),
                None => outcome(self@.words, self@.log) is None,
            },
    {
        proof {
            replayable_log_is_sound(word_chars(self.words@), self.history.key_history@);
        }
        Statistics::calculate(self.history, self.words)
    }

    pub fn status(&self) -> (status: Status)
        ensures
            status == self@.status,
    {
        self.status
    }

    pub fn mode(&self) -> (mode: GameMode)
        ensures
            mode == self@.mode,
    {
        self.mode
    }

    /// How many upcoming words are shown.
    pub fn peek_depth(&self) -> (depth: u16)
        ensures
            depth == self@.num_peek,
    {
        self.num_peek
    }

    /// The log of the session: the keys accepted so far and the words shown.
    pub fn history(&self) -> (history: &History)
        ensures
            history.key_history@ == self@.log,
            word_chars(history.words@) == self@.shown,
            self.wf() ==> history.replayable(),
    {
        &self.history
    }
}

} // verus!
