//! What a session looks like while it is typed: each character of each target
//! word, marked by how it was typed.

use crate::session::Session;
use crate::text::{texts, word_at};
use vstd::prelude::*;
use vstd::std_specs::iter::IteratorSpec;

verus! {

/// How a character of a target word was typed.
#[derive(Clone, Copy, Debug, PartialEq, Eq, Structural)]
pub enum CharMark {
    /// Nothing was typed at its position yet.
    Untyped,
    /// The same character was typed at its position.
    Right,
    /// Another character was typed at its position.
    Wrong,
}

/// A target word as it is shown.
pub struct WordMarks {
    /// The characters of the target word, each with its mark.
    pub chars: Vec<(char, CharMark)>,
    /// What was typed beyond the end of the target word; `None` for a word
    /// that the typist has not come to.
    pub overtyped: Option<String>,
}

/// The mark of the character at position `k` of `target`, with `typed` typed
/// against it.
pub open spec fn mark_at(target: Seq<char>, typed: Option<Seq<char>>, k: int) -> CharMark {
    match typed {
        Some(t) => if k < t.len() {
            if t[k] == target[k] {
                CharMark::Right
            } else {
                CharMark::Wrong
            }
        } else {
            CharMark::Untyped
        },
        None => CharMark::Untyped,
    }
}

/// The characters of `target`, each with its mark.
pub open spec fn marked(target: Seq<char>, typed: Option<Seq<char>>) -> Seq<(char, CharMark)> {
    Seq::new(target.len(), |k: int| (target[k], mark_at(target, typed, k)))
}

/// What of `typed` lies beyond the end of `target`.
pub open spec fn beyond(target: Seq<char>, typed: Option<Seq<char>>) -> Option<Seq<char>> {
    match typed {
        Some(t) => Some(
            if t.len() > target.len() {
                t.skip(target.len() as int)
            } else {
                Seq::empty()
            },
        ),
        None => None,
    }
}

/// The number of target words to show for `input_len` typed words: all the
/// words of a test that declares its length, else ten more than were typed
/// (as far as numbers go).
pub open spec fn shown_len(declared: Option<usize>, input_len: nat) -> nat {
    match declared {
        Some(len) => len as nat,
        None => if input_len + 10 <= usize::MAX {
            input_len + 10
        } else {
            usize::MAX as nat
        },
    }
}

impl WordMarks {
    /// Whether these are the marks of the target word `target` with `typed`
    /// typed against it.
    pub open spec fn shows(&self, target: Seq<char>, typed: Option<Seq<char>>) -> bool {
        &&& self.chars@ == marked(target, typed)
        &&& match self.overtyped {
            Some(rest) => beyond(target, typed) == Some(rest@),
            None => beyond(target, typed) is None,
        }
    }
}

/// Marks the characters of the target word `target`, with `typed` typed
/// against it (`None` for a word that the typist has not come to).
pub fn mark_word(target: &str, typed: Option<&str>) -> (marks: WordMarks)
    ensures
        marks.shows(
            target@,
            match typed {
                Some(t) => Some(t@),
                None => None,
            },
        ),
{
    broadcast use vstd::string::group_string_axioms;

    let ghost typed_text: Option<Seq<char>> = match typed {
        Some(t) => Some(t@),
        None => None,
    };
    let mut chars: Vec<(char, CharMark)> = Vec::new();
    match typed {
        None => {
            for ch in it: target.chars()
                invariant
                    it.seq() == target@,
                    typed_text is None,
                    chars@ == marked(target@, typed_text).take(it.index()),
            {
                chars.push((ch, CharMark::Untyped));
            }
            assert(chars@ =~= marked(target@, typed_text));
            WordMarks { chars, overtyped: None }
        },
        Some(t) => {
            let mut typed_chars = t.chars();
            for ch in it: target.chars()
                invariant
                    it.seq() == target@,
                    typed_text == Some(t@),
                    chars@ == marked(target@, typed_text).take(it.index()),
                    typed_chars.remaining() == if it.index() <= t@.len() {
                        t@.skip(it.index())
                    } else {
                        Seq::<char>::empty()
                    },
            {
                let ghost k = it.index();
                let typed_char = typed_chars.next();
                assert(typed_chars.remaining() =~= if k + 1 <= t@.len() {
                    t@.skip(k + 1)
                } else {
                    Seq::<char>::empty()
                });
                let mark = match typed_char {
                    None => CharMark::Untyped,
                    Some(c) => if c == ch {
                        CharMark::Right
                    } else {
                        CharMark::Wrong
                    },
                };
                chars.push((ch, mark));
            }
            assert(chars@ =~= marked(target@, typed_text));

            // Overtyped chars
            let ghost rest = if target@.len() <= t@.len() {
                t@.skip(target@.len() as int)
            } else {
                Seq::<char>::empty()
            };
            let mut overtyped = String::new();
            loop
                invariant_except_break
                    overtyped@ + typed_chars.remaining() == rest,
                ensures
                    overtyped@ == rest,
                decreases rest.len() - overtyped@.len(),
            {
                match typed_chars.next() {
                    Some(c) => {
                        overtyped.push(c);
                    },
                    None => {
                        break ;
                    },
                }
            }
            WordMarks { chars, overtyped: Some(overtyped) }
        },
    }
}

/// The target words of `session` as they are shown, from the first on: as
/// many as `shown_len` says, or as many as exist already if these are fewer.
/// Each has the word typed at its position against it, if the typist has
/// come to it. The source of the target words is only read.
pub fn mark_session(session: &Session) -> (shown: Vec<WordMarks>)
    requires
        session.inv(),
    ensures
        shown@.len() == if shown_len(session@.declared, session@.input.len())
            <= session@.targets.len() {
            shown_len(session@.declared, session@.input.len())
        } else {
            session@.targets.len()
        },
        forall|i: int|
            0 <= i < shown@.len() ==> (#[trigger] shown@[i]).shows(
                session@.targets[i],
                word_at(session@.input, i),
            ),
{
    let input = session.get_input_words();
    let input_len = input.len();
    let target_words = session.target_words();
    let words_to_render: usize = match target_words.len() {
        Some(len) => len,
        None => if input_len <= usize::MAX - 10 {
            input_len + 10
        } else {
            usize::MAX
        },
    };
    let mut shown: Vec<WordMarks> = Vec::new();
    let mut i: usize = 0;
    while i < words_to_render
        invariant
            i <= words_to_render,
            target_words.inv(),
            target_words.words() == session@.targets,
            texts(input@) == session@.input,
            input_len == input@.len(),
            words_to_render == shown_len(session@.declared, session@.input.len()),
            shown@.len() == i,
            i <= session@.targets.len(),
            forall|j: int|
                0 <= j < shown@.len() ==> (#[trigger] shown@[j]).shows(
                    session@.targets[j],
                    word_at(session@.input, j),
                ),
        ensures
            i == words_to_render || i == session@.targets.len(),
        decreases words_to_render - i,
    {
        match target_words.get_word_at_frozen(i) {
            None => {
                break ;
            },
            Some(word) => {
                let marks = if i < input_len {
                    mark_word(word.as_str(), Some(input[i].as_str()))
                } else {
                    mark_word(word.as_str(), None)
                };
                shown.push(marks);
                i += 1;
            },
        }
    }
    shown
}

} // verus!
