//! Words as sequences of characters: the view of a list of strings, and the
//! splitting of a text at a separator character.

use vstd::prelude::*;

verus! {

/// `String::push` of std: appends one character at the end of the string.
pub assume_specification[ String::push ](s: &mut String, c: char)
    ensures
        final(s)@ == old(s)@.push(c),
;

/// `String::pop` of std: removes the last character and returns it, or
/// returns `None` and leaves the string alone when it is empty.
pub assume_specification[ String::pop ](s: &mut String) -> (r: Option<char>)
    ensures
        old(s)@.len() == 0 ==> r is None && final(s)@ == old(s)@,
        old(s)@.len() > 0 ==> r == Some(old(s)@.last()) && final(s)@ == old(s)@.drop_last(),
;

/// The words that a list of strings holds, each as its sequence of characters.
pub open spec fn texts(v: Seq<String>) -> Seq<Seq<char>> {
    Seq::new(v.len(), |i: int| v[i]@)
}

/// The word that an optional string holds.
pub open spec fn opt_text(w: Option<String>) -> Option<Seq<char>> {
    match w {
        Some(s) => Some(s@),
        None => None,
    }
}

/// The word at position `i`, if the list reaches that far.
pub open spec fn word_at(words: Seq<Seq<char>>, i: int) -> Option<Seq<char>> {
    if 0 <= i < words.len() {
        Some(words[i])
    } else {
        None
    }
}

/// `s` cut at every occurrence of `sep`. The pieces come in order, none of
/// them holds `sep`, and two separators in a row (or one at either end) leave
/// an empty piece: the empty text gives one empty piece.
pub open spec fn split_on(s: Seq<char>, sep: char) -> Seq<Seq<char>>
    decreases s.len(),
{
    if s.len() == 0 {
        seq![Seq::empty()]
    } else {
        let init = split_on(s.drop_last(), sep);
        if s.last() == sep {
            init.push(Seq::empty())
        } else {
            init.update(init.len() - 1, init.last().push(s.last()))
        }
    }
}

/// The pieces of `words` written one after the other with `sep` between each
/// two neighbours.
pub open spec fn join_with(words: Seq<Seq<char>>, sep: char) -> Seq<char>
    decreases words.len(),
{
    if words.len() == 0 {
        Seq::empty()
    } else if words.len() == 1 {
        words[0]
    } else {
        join_with(words.drop_last(), sep).push(sep) + words.last()
    }
}

/// Those of `words` that hold at least one character, in their order.
pub open spec fn nonempty_words(words: Seq<Seq<char>>) -> Seq<Seq<char>> {
    words.filter(|w: Seq<char>| w.len() > 0)
}

/// The words of a list with one more string are the words of the list with
/// that string's word at the end.
pub proof fn lemma_texts_push(v: Seq<String>, w: String)
    ensures
        texts(v.push(w)) == texts(v).push(w@),
{
}

/// Splitting always leaves at least one piece.
pub proof fn lemma_split_on_nonempty(s: Seq<char>, sep: char)
    ensures
        split_on(s, sep).len() >= 1,
    decreases s.len(),
{
    if s.len() > 0 {
        lemma_split_on_nonempty(s.drop_last(), sep);
    }
}

/// No piece of a split text holds the separator.
pub proof fn lemma_split_on_lacks_sep(s: Seq<char>, sep: char)
    ensures
        forall|i: int|
            0 <= i < split_on(s, sep).len() ==> !(#[trigger] split_on(s, sep)[i]).contains(sep),
    decreases s.len(),
{
    if s.len() > 0 {
        lemma_split_on_lacks_sep(s.drop_last(), sep);
        lemma_split_on_nonempty(s.drop_last(), sep);
    }
}

/// Joining the pieces of a split text with the separator gives the text back.
pub proof fn lemma_join_split(s: Seq<char>, sep: char)
    ensures
        join_with(split_on(s, sep), sep) == s,
    decreases s.len(),
{
    let pieces = split_on(s, sep);
    if s.len() > 0 {
        let init = split_on(s.drop_last(), sep);
        lemma_join_split(s.drop_last(), sep);
        lemma_split_on_nonempty(s.drop_last(), sep);
        if s.last() == sep {
            assert(pieces.drop_last() =~= init);
        } else if init.len() > 1 {
            assert(pieces.drop_last() =~= init.drop_last());
            assert(join_with(init, sep) == join_with(init.drop_last(), sep).push(sep)
                + init.last());
            assert(join_with(pieces, sep) =~= (join_with(init.drop_last(), sep).push(sep)
                + init.last()).push(s.last()));
        }
    }
}

/// A text that goes on without a separator only makes the last piece longer.
pub proof fn lemma_split_on_extends_last(s: Seq<char>, t: Seq<char>, sep: char)
    requires
        !t.contains(sep),
    ensures
        split_on(s + t, sep) == split_on(s, sep).update(
            split_on(s, sep).len() - 1,
            split_on(s, sep).last() + t,
        ),
    decreases t.len(),
{
    let pieces = split_on(s, sep);
    lemma_split_on_nonempty(s, sep);
    if t.len() > 0 {
        let head = t.drop_last();
        lemma_split_on_extends_last(s, head, sep);
        assert((s + t).drop_last() =~= s + head);
        assert((pieces.last() + head).push(t.last()) =~= pieces.last() + t);
    }
}

/// Splitting undoes joining: words without a separator in them, at least
/// one, come back from their joined text as they were. So the pieces of a
/// text are the only such words that join to it.
pub proof fn lemma_split_join(words: Seq<Seq<char>>, sep: char)
    requires
        words.len() >= 1,
        forall|i: int| 0 <= i < words.len() ==> !(#[trigger] words[i]).contains(sep),
    ensures
        split_on(join_with(words, sep), sep) == words,
    decreases words.len(),
{
    if words.len() == 1 {
        lemma_split_on_extends_last(Seq::empty(), words[0], sep);
    } else {
        let init = words.drop_last();
        lemma_split_join(init, sep);
        let head = join_with(init, sep).push(sep);
        assert(head.drop_last() =~= join_with(init, sep));
        lemma_split_on_extends_last(head, words.last(), sep);
    }
}

/// Cuts `s` at every `sep` and returns the pieces as strings.
pub fn split(s: &str, sep: char) -> (words: Vec<String>)
    ensures
        texts(words@) == split_on(s@, sep),
{
    broadcast use vstd::string::group_string_axioms;

    let mut words: Vec<String> = Vec::new();
    let mut cur = String::new();
    for c in it: s.chars()
        invariant
            it.seq() == s@,
            texts(words@).push(cur@) == split_on(s@.take(it.index()), sep),
    {
        let ghost k = it.index();
        let ghost before = texts(words@).push(cur@);
        assert(s@.take(k + 1).drop_last() =~= s@.take(k));
        if c == sep {
            words.push(cur);
            cur = String::new();
        } else {
            cur.push(c);
            assert(texts(words@).push(cur@) =~= before.update(
                before.len() - 1,
                before.last().push(c),
            ));
        }
    }
    assert(s@.take(s@.len() as int) =~= s@);
    proof {
        lemma_texts_push(words@, cur);
    }
    words.push(cur);
    words
}

/// Keeps the strings of `words` that hold at least one character.
pub fn keep_nonempty(words: Vec<String>) -> (kept: Vec<String>)
    ensures
        texts(kept@) == nonempty_words(texts(words@)),
{
    let mut kept: Vec<String> = Vec::new();
    let n = words.len();
    let mut i: usize = 0;
    while i < n
        invariant
            n == words.len(),
            i <= n,
            texts(kept@) == nonempty_words(texts(words@).take(i as int)),
        decreases n - i,
    {
        let ghost all = texts(words@);
        assert(all.take(i + 1).drop_last() =~= all.take(i as int));
        proof {
            reveal(Seq::filter);
        }
        if !words[i].as_str().is_empty() {
            let w = words[i].clone();
            proof {
                lemma_texts_push(kept@, w);
            }
            kept.push(w);
        }
        i += 1;
    }
    assert(texts(words@).take(n as int) =~= texts(words@));
    kept
}

} // verus!
