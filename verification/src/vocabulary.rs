//! The source of target words: a comma-separated vocabulary, and a random
//! draw from it.

use crate::replay::word_chars;
use rand::seq::IteratorRandom;
use rand::thread_rng;
use vstd::prelude::*;
use vstd::string::*;

verus! {

/// The character that separates the words of a vocabulary.
pub const SEPARATOR: char = ',';

/// The pieces of `text` between separators, in order. There is always one
/// piece more than there are separators: an empty text is one empty piece.
pub open spec fn split_on(text: Seq<char>, separator: char) -> Seq<Seq<char>>
    decreases text.len(),
{
    if text.len() == 0 {
        seq![Seq::empty()]
    } else {
        let before = split_on(text.drop_last(), separator);
        if text.last() == separator {
            before.push(Seq::empty())
        } else {
            before.drop_last().push(before.last().push(text.last()))
        }
    }
}

/// The pieces put together again, with a separator between each two.
pub open spec fn joined(pieces: Seq<Seq<char>>, separator: char) -> Seq<char>
    decreases pieces.len(),
{
    if pieces.len() == 0 {
        Seq::empty()
    } else if pieces.len() == 1 {
        pieces[0]
    } else {
        joined(pieces.drop_last(), separator).push(separator) + pieces.last()
    }
}

/// `picked` holds items of `pool`, the i-th taken from position `at[i]`, and
/// no position is used twice.
pub open spec fn selects(picked: Seq<Seq<char>>, pool: Seq<Seq<char>>, at: Seq<int>) -> bool {
    &&& at.len() == picked.len()
    &&& forall|i: int| 0 <= i < at.len() ==> 0 <= #[trigger] at[i] < pool.len() && picked[i] == pool[at[i]]
    &&& forall|i: int, j: int| 0 <= i < j < at.len() ==> at[i] != at[j]
}

/// `picked` was drawn from `pool` without replacement.
pub open spec fn drawn_from(picked: Seq<Seq<char>>, pool: Seq<Seq<char>>) -> bool {
    exists|at: Seq<int>| selects(picked, pool, at)
}

/// Splitting is undone by joining, no piece holds a separator, and there is
/// one piece more than separators, hence at least one.
pub proof fn split_on_is_the_inverse_of_joined(text: Seq<char>, separator: char)
    ensures
        joined(split_on(text, separator), separator) == text,
        split_on(text, separator).len() >= 1,
        forall|i: int, k: int|
            0 <= i < split_on(text, separator).len() && 0 <= k < split_on(text, separator)[i].len()
                ==> split_on(text, separator)[i][k] != separator,
    decreases text.len(),
{
    if text.len() > 0 {
        let before = split_on(text.drop_last(), separator);
        split_on_is_the_inverse_of_joined(text.drop_last(), separator);
        if text.last() == separator {
            let pieces = before.push(Seq::empty());
            assert(pieces.drop_last() == before);
            assert(joined(pieces, separator) == joined(before, separator).push(separator)
                + Seq::<char>::empty());
            assert(text == text.drop_last().push(separator));
        } else {
            let grown = before.last().push(text.last());
            let pieces = before.drop_last().push(grown);
            assert(pieces.drop_last() == before.drop_last());
            if before.len() > 1 {
                assert(joined(pieces, separator) == (joined(before.drop_last(), separator).push(
                    separator,
                ) + before.last()).push(text.last()));
            }
            assert(text == text.drop_last().push(text.last()));
        }
    }
}

/// The words of a vocabulary: the pieces of `data` between commas.
pub fn split_words(data: &'static str) -> (words: Vec<&'static str>)
    ensures
        word_chars(words@) == split_on(data@, SEPARATOR),
{
    let length = data.unicode_len();
    let mut words: Vec<&'static str> = Vec::new();
    let mut start: usize = 0;
    let mut i: usize = 0;
    proof {
        assert(data@.take(0) == Seq::<char>::empty());
        assert(word_chars(words@).push(data@.subrange(0, 0)) == seq![Seq::<char>::empty()]);
    }
    while i < length
        invariant
            length == data@.len(),
            start <= i <= length,
            word_chars(words@).push(data@.subrange(start as int, i as int)) == split_on(
                data@.take(i as int),
                SEPARATOR,
            ),
        decreases length - i,
    {
        let ghost done = word_chars(words@);
        let ghost piece = data@.subrange(start as int, i as int);
        proof {
            assert(data@.take(i + 1).drop_last() == data@.take(i as int));
            assert(done.push(piece).drop_last() == done);
        }
        if data.get_char(i) == SEPARATOR {
            words.push(data.substring_char(start, i));
            start = i + 1;
            proof {
                assert(word_chars(words@) == done.push(piece));
                assert(data@.subrange(start as int, i + 1) == Seq::<char>::empty());
            }
        } else {
            proof {
                assert(data@.subrange(start as int, i + 1) == piece.push(data@[i as int]));
            }
        }
        i = i + 1;
    }
    let ghost done = word_chars(words@);
    words.push(data.substring_char(start, length));
    proof {
        assert(data@.take(length as int) == data@);
        assert(word_chars(words@) == done.push(data@.subrange(start as int, length as int)));
    }
    words
}

/// Calls `rand::seq::IteratorRandom::choose_multiple` on the words of
/// `vocabulary`, with `rand::thread_rng()` as the generator. Believed, not
/// proved: it returns `amount` words, each taken from a different position
/// of the vocabulary (it fills a reservoir with the first `amount` items and
/// then lets later items overwrite slots). Which words, and in which order,
/// is left open. `amount` must not exceed the vocabulary, so that the
/// reservoir is no larger than what is held already.
#[verifier::external_body]
fn choose_multiple(vocabulary: &Vec<&'static str>, amount: usize) -> (picked: Vec<&'static str>)
    requires
        amount <= vocabulary@.len(),
    ensures
        picked@.len() == amount,
        drawn_from(word_chars(picked@), word_chars(vocabulary@)),
{
    vocabulary.iter().copied().choose_multiple(&mut thread_rng(), amount)
}

/// Draws `amount` words from `vocabulary` at random, without replacement;
/// all of them, if it holds no more.
pub fn sample(vocabulary: &Vec<&'static str>, amount: usize) -> (picked: Vec<&'static str>)
    ensures
        picked@.len() == if amount <= vocabulary@.len() {
            amount as nat
        } else {
            vocabulary@.len()
        },
        drawn_from(word_chars(picked@), word_chars(vocabulary@)),
{
    let available = vocabulary.len();
    choose_multiple(
        vocabulary,
        if amount <= available {
            amount
        } else {
            available
        },
    )
}

} // verus!
