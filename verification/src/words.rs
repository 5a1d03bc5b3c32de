//! Sources of target words: a fixed passage, and words drawn at random from
//! a pool of candidates.

use crate::text::{
    keep_nonempty, lemma_texts_push, nonempty_words, opt_text, split, split_on, texts, word_at,
};
use rand::seq::IndexedRandom;
use vstd::prelude::*;

verus! {

/// Why a pool of candidate words could not be had.
#[derive(Clone, Copy, Debug, PartialEq, Eq, Structural)]
pub enum LoadError {
    /// The word list gave no content at all.
    Unreadable,
    /// The word list holds no word.
    Empty,
}

/// A supplier of target words by position.
pub trait WordGenerator {
    /// What every method keeps true of the generator.
    spec fn inv(&self) -> bool;

    /// The words that exist so far, in order.
    spec fn words(&self) -> Seq<Seq<char>>;

    /// The number of words a test on this generator asks for, if it has one.
    spec fn declared_len(&self) -> Option<usize>;

    /// Whether a lookup past the last word makes new words.
    spec fn grows(&self) -> bool;

    /// The word at `i`. A generator that grows first extends its words up to
    /// `i` and then never answers `None`; the words that existed stay as they
    /// were. One that does not grow answers as `get_word_at_frozen` does.
    fn get_word_at(&mut self, i: usize) -> (r: Option<String>)
        requires
            old(self).inv(),
        ensures
            final(self).inv(),
            final(self).declared_len() == old(self).declared_len(),
            final(self).grows() == old(self).grows(),
            final(self).words().len() == if old(self).grows() && i >= old(self).words().len() {
                i + 1
            } else {
                old(self).words().len() as int
            },
            final(self).words().take(old(self).words().len() as int) == old(self).words(),
            opt_text(r) == word_at(final(self).words(), i as int),
    ;

    /// The word at `i` if it exists already, else `None`.
    fn get_word_at_frozen(&self, i: usize) -> (r: Option<String>)
        requires
            self.inv(),
        ensures
            opt_text(r) == word_at(self.words(), i as int),
    ;

    /// The number of words a test on this generator asks for, if it has one.
    fn len(&self) -> (r: Option<usize>)
        requires
            self.inv(),
        ensures
            r == self.declared_len(),
    ;
}

/// A word that exists stays: a lookup that grows a generator's words from
/// `before` to `after` leaves the answer at every position of `before` as it
/// was.
pub proof fn lemma_words_stay(before: Seq<Seq<char>>, after: Seq<Seq<char>>, i: int)
    requires
        after.take(before.len() as int) == before,
        before.len() <= after.len(),
        0 <= i < before.len(),
    ensures
        word_at(after, i) == word_at(before, i),
{
}

/// The candidate words of a word list: its lines, without the empty ones.
pub open spec fn candidate_words(content: Seq<char>) -> Seq<Seq<char>> {
    nonempty_words(split_on(content, '\n'))
}

/// What loading a word list gives: the pool of candidates, or the reason why
/// there is none.
pub open spec fn loaded(content: Option<Seq<char>>) -> Result<Seq<Seq<char>>, LoadError> {
    match content {
        None => Err(LoadError::Unreadable),
        Some(text) => if candidate_words(text).len() == 0 {
            Err(LoadError::Empty)
        } else {
            Ok(candidate_words(text))
        },
    }
}

/// The view of the content of a word list.
pub open spec fn content_text(content: Option<&str>) -> Option<Seq<char>> {
    match content {
        Some(text) => Some(text@),
        None => None,
    }
}

/// A uniform draw from `pool` by `rand::seq::IndexedRandom::choose`, with the
/// thread's generator of `rand::rng`. The draw is `None` exactly for an empty
/// pool, and else one of the pool's items; which one is up to chance. (The
/// generator gives up only if the system has no randomness to seed it.)
#[verifier::external_body]
fn choose_word(pool: &Vec<String>) -> (picked: Option<&String>)
    ensures
        picked is None <==> pool@.len() == 0,
        picked matches Some(w) ==> pool@.contains(*w),
{
    pool.choose(&mut rand::rng())
}

/// Words drawn at random from a pool, as many as are asked for and then
/// more on demand. A word once drawn stays.
pub struct RandomWordGenerator {
    words: Vec<String>,
    size: Option<usize>,
    word_list: Vec<String>,
}

impl RandomWordGenerator {
    /// The pool of candidates that the words are drawn from.
    pub closed spec fn pool(&self) -> Seq<Seq<char>> {
        texts(self.word_list@)
    }

    /// Every word of `words` is one of `pool`.
    pub open spec fn drawn_from(words: Seq<Seq<char>>, pool: Seq<Seq<char>>) -> bool {
        forall|i: int| 0 <= i < words.len() ==> pool.contains(#[trigger] words[i])
    }

    /// The pool of candidate words in `content`, the text of a word list with
    /// one word per line; `None` stands for a list that could not be read.
    pub fn load_word_list(content: Option<&str>) -> (r: Result<Vec<String>, LoadError>)
        ensures
            loaded(content_text(content)) == match r {
                Ok(pool) => Ok::<Seq<Seq<char>>, LoadError>(texts(pool@)),
                Err(e) => Err(e),
            },
    {
        match content {
            None => Err(LoadError::Unreadable),
            Some(text) => {
                let pool = keep_nonempty(split(text, '\n'));
                if pool.len() == 0 {
                    Err(LoadError::Empty)
                } else {
                    Ok(pool)
                }
            },
        }
    }

    /// A generator for a test of `s` words, with its first `s` words drawn
    /// from the candidates in `content`. Fails if the word list could not be
    /// read or holds no word.
    pub fn with_size(s: usize, content: Option<&str>) -> (r: Result<Self, LoadError>)
        ensures
            loaded(content_text(content)) == match r {
                Ok(g) => Ok::<Seq<Seq<char>>, LoadError>(g.pool()),
                Err(e) => Err(e),
            },
            r matches Ok(g) ==> {
                &&& g.inv()
                &&& g.grows()
                &&& g.declared_len() == Some(s)
                &&& g.words().len() == s
                &&& Self::drawn_from(g.words(), g.pool())
            },
    {
        match Self::load_word_list(content) {
            Err(e) => Err(e),
            Ok(word_list) => {
                let mut generator = Self { words: Vec::new(), size: Some(s), word_list };
                generator.add_words(s);
                Ok(generator)
            },
        }
    }

    /// One word of the pool, picked at random.
    fn get_random_word(&self) -> (word: String)
        requires
            self.inv(),
        ensures
            self.pool().contains(word@),
    {
        let picked = choose_word(&self.word_list);
        let word = picked.unwrap().clone();
        proof {
            let i = choose|i: int| 0 <= i < self.word_list@.len() && self.word_list@[i] == word;
            assert(self.pool()[i] == word@);
        }
        word
    }

    /// Draws `n` more words and appends them.
    fn add_words(&mut self, n: usize)
        requires
            old(self).inv(),
        ensures
            final(self).inv(),
            final(self).pool() == old(self).pool(),
            final(self).declared_len() == old(self).declared_len(),
            final(self).words().len() == old(self).words().len() + n,
            final(self).words().take(old(self).words().len() as int) == old(self).words(),
    {
        let ghost before = self.words();
        let mut k: usize = 0;
        while k < n
            invariant
                k <= n,
                self.inv(),
                self.pool() == old(self).pool(),
                self.declared_len() == old(self).declared_len(),
                before == old(self).words(),
                self.words().len() == before.len() + k,
                self.words().take(before.len() as int) == before,
            decreases n - k,
        {
            let word = self.get_random_word();
            proof {
                lemma_texts_push(self.words@, word);
            }
            self.words.push(word);
            k += 1;
        }
    }
}

impl WordGenerator for RandomWordGenerator {
    closed spec fn inv(&self) -> bool {
        &&& self.word_list@.len() > 0
        &&& Self::drawn_from(texts(self.words@), texts(self.word_list@))
    }

    closed spec fn words(&self) -> Seq<Seq<char>> {
        texts(self.words@)
    }

    closed spec fn declared_len(&self) -> Option<usize> {
        self.size
    }

    open spec fn grows(&self) -> bool {
        true
    }

    fn get_word_at(&mut self, index: usize) -> (r: Option<String>)
        ensures
            final(self).pool() == old(self).pool(),
            Self::drawn_from(final(self).words(), final(self).pool()),
    {
        if index >= self.words.len() {
            let missing = index - self.words.len();
            self.add_words(missing);
            let word = self.get_random_word();
            proof {
                lemma_texts_push(self.words@, word);
            }
            self.words.push(word);
        }
        Some(self.words[index].clone())
    }

    fn get_word_at_frozen(&self, index: usize) -> (r: Option<String>) {
        if index >= self.words.len() {
            None
        } else {
            Some(self.words[index].clone())
        }
    }

    fn len(&self) -> (r: Option<usize>) {
        self.size
    }
}

/// The words of a passage, in order and fixed.
pub struct StaticWordGenerator {
    words: Vec<String>,
}

impl StaticWordGenerator {
    /// The words of the passage `s`: its pieces between single spaces.
    pub fn from(s: String) -> (g: Self)
        ensures
            g.inv(),
            !g.grows(),
            g.words() == split_on(s@, ' '),
            g.words().len() <= usize::MAX,
            g.declared_len() == Some(g.words().len() as usize),
    {
        let words = split(s.as_str(), ' ');
        assert(texts(words@).len() == words.len());
        Self { words }
    }
}

impl WordGenerator for StaticWordGenerator {
    open spec fn inv(&self) -> bool {
        true
    }

    closed spec fn words(&self) -> Seq<Seq<char>> {
        texts(self.words@)
    }

    closed spec fn declared_len(&self) -> Option<usize> {
        Some(self.words@.len() as usize)
    }

    open spec fn grows(&self) -> bool {
        false
    }

    fn get_word_at_frozen(&self, index: usize) -> (r: Option<String>) {
        if index >= self.words.len() {
            None
        } else {
            Some(self.words[index].clone())
        }
    }

    fn get_word_at(&mut self, index: usize) -> (r: Option<String>) {
        self.get_word_at_frozen(index)
    }

    fn len(&self) -> (r: Option<usize>) {
        Some(self.words.len())
    }
}

} // verus!
