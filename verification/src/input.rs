//! The state of one target word while it is being typed.

use vstd::prelude::*;
use vstd::string::*;

verus! {

/// How one displayed character is to be styled.
#[derive(Clone, Copy, Debug, PartialEq, Eq, Structural)]
pub enum Style {
    /// Not typed yet.
    Plain,
    /// Typed, and the typed character matched the target.
    Correct,
    /// Typed, and the typed character did not match, or was typed past the
    /// end of the target.
    Incorrect,
}

/// One displayed character with its style.
#[derive(Clone, Copy, Debug, PartialEq, Eq, Structural)]
pub struct Span {
    pub ch: char,
    pub style: Style,
}

/// One change to a word's input: a typed character or a deletion.
pub enum Edit {
    Type(char),
    Erase,
}

/// The mathematical state of a word being typed: the target, the characters
/// entered so far, and whether every character ever entered matched.
pub struct WordState {
    pub target: Seq<char>,
    pub entered: Seq<char>,
    pub correct: bool,
}

impl WordState {
    /// The state before anything was typed.
    pub open spec fn fresh(target: Seq<char>) -> WordState {
        WordState { target, entered: Seq::empty(), correct: true }
    }

    /// The number of characters entered.
    pub open spec fn cursor(self) -> nat {
        self.entered.len()
    }

    /// Whether `c` is the target character at the cursor. Past the end of the
    /// target there is no character to match.
    pub open spec fn accepts(self, c: char) -> bool {
        self.cursor() < self.target.len() && self.target[self.cursor() as int] == c
    }

    /// The state after `c` was typed.
    pub open spec fn typed(self, c: char) -> WordState {
        WordState {
            target: self.target,
            entered: self.entered.push(c),
            correct: self.correct && self.accepts(c),
        }
    }

    /// The state after a deletion. The correctness flag is not restored.
    pub open spec fn erased(self) -> WordState {
        if self.entered.len() == 0 {
            self
        } else {
            WordState { target: self.target, entered: self.entered.drop_last(), correct: self.correct }
        }
    }

    /// Exactly as many characters are entered as the target has.
    pub open spec fn is_complete(self) -> bool {
        self.cursor() == self.target.len()
    }

    /// The state after one edit.
    pub open spec fn apply(self, edit: Edit) -> WordState {
        match edit {
            Edit::Type(c) => self.typed(c),
            Edit::Erase => self.erased(),
        }
    }

    /// The state after a sequence of edits, first to last.
    pub open spec fn apply_all(self, edits: Seq<Edit>) -> WordState
        decreases edits.len(),
    {
        if edits.len() == 0 {
            self
        } else {
            self.apply_all(edits.drop_last()).apply(edits.last())
        }
    }

    /// The state after a sequence of characters was typed, first to last.
    pub open spec fn typed_all(self, chars: Seq<char>) -> WordState
        decreases chars.len(),
    {
        if chars.len() == 0 {
            self
        } else {
            self.typed_all(chars.drop_last()).typed(chars.last())
        }
    }

    /// The displayed character at position `i`.
    pub open spec fn span_at(self, i: int) -> Span {
        if i < self.target.len() {
            if i >= self.entered.len() {
                Span { ch: self.target[i], style: Style::Plain }
            } else if self.entered[i] == self.target[i] {
                Span { ch: self.target[i], style: Style::Correct }
            } else {
                Span { ch: self.target[i], style: Style::Incorrect }
            }
        } else {
            Span { ch: self.entered[i], style: Style::Incorrect }
        }
    }

    /// The number of displayed characters: the target, and what was typed
    /// past its end.
    pub open spec fn rendered_len(self) -> nat {
        if self.entered.len() > self.target.len() {
            self.entered.len()
        } else {
            self.target.len()
        }
    }

    /// What is displayed: each target character, styled by whether it was
    /// typed and matched, then every character typed past the end of the
    /// target, styled as incorrect.
    pub open spec fn rendered(self) -> Seq<Span> {
        Seq::new(self.rendered_len(), |i: int| self.span_at(i))
    }
}

/// The typed state of one target word.
pub struct Input<'a> {
    word: &'a str,
    cursor: usize,
    input: Vec<char>,
    correct: bool,
}

impl<'a> View for Input<'a> {
    type V = WordState;

    closed spec fn view(&self) -> WordState {
        WordState { target: self.word@, entered: self.input@, correct: self.correct }
    }
}

impl<'a> Input<'a> {
    /// The cursor counts the characters entered.
    pub closed spec fn wf(&self) -> bool {
        self.cursor == self.input@.len()
    }

    pub fn new(word: &'a str) -> (fresh: Self)
        ensures
            fresh.wf(),
            fresh@ == WordState::fresh(word@),
    {
        Input { word, cursor: 0, input: Vec::new(), correct: true }
    }

    pub fn is_complete(&self) -> (complete: bool)
        requires
            self.wf(),
        ensures
            complete == self@.is_complete(),
    {
        self.cursor == self.word.unicode_len()
    }

    /// True as long as every character entered so far matched the target.
    pub fn correct(&self) -> (correct: bool)
        ensures
            correct == self@.correct,
    {
        self.correct
    }

    /// Enters `input` at the cursor and says whether it matched the target
    /// there.
    pub fn update(&mut self, input: char) -> (correct: bool)
        requires
            old(self).wf(),
        ensures
            final(self).wf(),
            correct == old(self)@.accepts(input),
            final(self)@ == old(self)@.typed(input),
            final(self)@.cursor() == old(self)@.cursor() + 1,
            final(self)@.correct == (old(self)@.correct && correct),
    {
        let correct = if self.cursor < self.word.unicode_len() {
            self.word.get_char(self.cursor) == input
        } else {
            false
        };
        self.input.push(input);
        self.cursor = self.input.len();
        self.correct = self.correct && correct;
        correct
    }

    /// Removes the character entered last, if there is one.
    pub fn delete_one(&mut self)
        requires
            old(self).wf(),
        ensures
            final(self).wf(),
            final(self)@ == old(self)@.erased(),
            old(self)@.cursor() == 0 ==> final(self)@ == old(self)@,
            old(self)@.cursor() > 0 ==> final(self)@.cursor() == old(self)@.cursor() - 1,
            final(self)@.correct == old(self)@.correct,
    {
        if self.cursor == 0 {
            return ;
        }
        self.cursor = self.cursor - 1;
        self.input.pop();
    }

    /// The word as it is to be displayed: see [`WordState::rendered`].
    pub fn render(&self) -> (spans: Vec<Span>)
        requires
            self.wf(),
        ensures
            spans@ == self@.rendered(),
    {
        let length = self.word.unicode_len();
        let mut spans: Vec<Span> = Vec::new();
        let mut i: usize = 0;
        while i < length
            invariant
                self.wf(),
                length == self@.target.len(),
                i <= length,
                spans@.len() == i,
                forall|k: int| 0 <= k < i ==> spans@[k] == self@.span_at(k),
            decreases length - i,
        {
            let c = self.word.get_char(i);
            let style = if i >= self.cursor {
                Style::Plain
            } else if self.input[i] == c {
                Style::Correct
            } else {
                Style::Incorrect
            };
            spans.push(Span { ch: c, style });
            i = i + 1;
        }
        while i < self.cursor
            invariant
                self.wf(),
                length == self@.target.len(),
                length <= i,
                i <= self.cursor || i == length,
                spans@.len() == i,
                forall|k: int| 0 <= k < i ==> spans@[k] == self@.span_at(k),
            decreases self.cursor - i,
        {
            let c = self.input[i];
            spans.push(Span { ch: c, style: Style::Incorrect });
            assert(spans@[i as int] == self@.span_at(i as int));
            i = i + 1;
        }
        spans
    }
}

/// Typing appends to what was entered and leaves the target alone.
pub proof fn typed_all_appends(state: WordState, chars: Seq<char>)
    ensures
        state.typed_all(chars).entered == state.entered + chars,
        state.typed_all(chars).target == state.target,
    decreases chars.len(),
{
    if chars.len() > 0 {
        typed_all_appends(state, chars.drop_last());
        assert(state.entered + chars == (state.entered + chars.drop_last()).push(chars.last()));
    } else {
        assert(state.entered + chars == state.entered);
    }
}

/// Whatever is typed into a fresh word, right or wrong, the word is complete
/// exactly when as many characters were typed as the target has: not fewer,
/// not more.
pub proof fn complete_iff_target_length_typed(target: Seq<char>, chars: Seq<char>)
    ensures
        WordState::fresh(target).typed_all(chars).is_complete() <==> chars.len() == target.len(),
{
    typed_all_appends(WordState::fresh(target), chars);
}

/// Once the cursor has reached the end of the target, typing more never
/// makes the word complete again.
pub proof fn typing_on_never_completes(state: WordState, more: Seq<char>)
    requires
        state.cursor() >= state.target.len(),
        more.len() > 0,
    ensures
        !state.typed_all(more).is_complete(),
{
    typed_all_appends(state, more);
}

/// Once a word is marked incorrect, no sequence of further characters and
/// deletions marks it correct again.
pub proof fn incorrect_stays_incorrect(state: WordState, edits: Seq<Edit>)
    requires
        !state.correct,
    ensures
        !state.apply_all(edits).correct,
    decreases edits.len(),
{
    if edits.len() > 0 {
        incorrect_stays_incorrect(state, edits.drop_last());
    }
}

/// A deletion at cursor zero changes nothing, however often it is repeated;
/// anywhere else it moves the cursor back by exactly one.
pub proof fn erase_steps_back_or_stays(state: WordState)
    ensures
        state.cursor() == 0 ==> state.erased() == state && state.erased().erased() == state,
        state.cursor() > 0 ==> state.erased().cursor() == state.cursor() - 1,
{
}

} // verus!
