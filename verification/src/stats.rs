//! The scoring of a finished session: how many characters and words were
//! typed right, out of how many.

use crate::session::{attempted, Session, SessionView};
use crate::text::texts;
use std::time::Duration;
use vstd::prelude::*;
use vstd::std_specs::iter::IteratorSpec;

verus! {

/// The length of the shorter of two words.
pub open spec fn shorter_len(a: Seq<char>, b: Seq<char>) -> nat {
    if a.len() <= b.len() {
        a.len()
    } else {
        b.len()
    }
}

/// The length of the longer of two words.
pub open spec fn longer_len(a: Seq<char>, b: Seq<char>) -> nat {
    if a.len() >= b.len() {
        a.len()
    } else {
        b.len()
    }
}

/// The number of positions below `k` at which `a` and `b` hold the same
/// character.
pub open spec fn matches_upto(a: Seq<char>, b: Seq<char>, k: nat) -> nat
    recommends
        k <= shorter_len(a, b),
    decreases k,
{
    if k == 0 {
        0
    } else {
        matches_upto(a, b, (k - 1) as nat) + if a[k - 1] == b[k - 1] {
            1nat
        } else {
            0nat
        }
    }
}

/// The number of positions, as far as the shorter word goes, at which `a`
/// and `b` hold the same character.
pub open spec fn matching_chars(a: Seq<char>, b: Seq<char>) -> nat {
    matches_upto(a, b, shorter_len(a, b))
}

/// Whether a typed word counts as right: every position of the longer word
/// is matched.
pub open spec fn word_correct(a: Seq<char>, b: Seq<char>) -> bool {
    matching_chars(a, b) == longer_len(a, b)
}

/// The counts over a number of words, before the spaces are counted in.
pub struct Tally {
    /// Matching characters, over all words.
    pub char_corr: nat,
    /// The longer length of typed and target word, over all words.
    pub char_total: nat,
    /// The words typed right.
    pub word_corr: nat,
    /// The lengths of the words typed right.
    pub correct_word_chars: nat,
}

/// The counts over the first `n` typed words, each held against the target
/// word at its position.
pub open spec fn tally(input: Seq<Seq<char>>, target: Seq<Seq<char>>, n: nat) -> Tally
    recommends
        n <= input.len(),
        n <= target.len(),
    decreases n,
{
    if n == 0 {
        Tally { char_corr: 0, char_total: 0, word_corr: 0, correct_word_chars: 0 }
    } else {
        let before = tally(input, target, (n - 1) as nat);
        let a = input[n - 1];
        let b = target[n - 1];
        Tally {
            char_corr: before.char_corr + matching_chars(a, b),
            char_total: before.char_total + longer_len(a, b),
            word_corr: before.word_corr + if word_correct(a, b) {
                1nat
            } else {
                0nat
            },
            correct_word_chars: before.correct_word_chars + if word_correct(a, b) {
                longer_len(a, b)
            } else {
                0nat
            },
        }
    }
}

/// The spaces that count as typed right: one between each two words typed
/// right, and none where no word is right.
pub open spec fn spaces(word_corr: nat) -> nat {
    if word_corr == 0 {
        0
    } else {
        (word_corr - 1) as nat
    }
}

pub proof fn lemma_matches_upto_bound(a: Seq<char>, b: Seq<char>, k: nat)
    ensures
        matches_upto(a, b, k) <= k,
    decreases k,
{
    if k > 0 {
        lemma_matches_upto_bound(a, b, (k - 1) as nat);
    }
}

pub proof fn lemma_matches_upto_symmetric(a: Seq<char>, b: Seq<char>, k: nat)
    ensures
        matches_upto(a, b, k) == matches_upto(b, a, k),
    decreases k,
{
    if k > 0 {
        lemma_matches_upto_symmetric(a, b, (k - 1) as nat);
    }
}

/// All of the first `k` positions match exactly if the two words agree on
/// them.
pub proof fn lemma_matches_upto_full(a: Seq<char>, b: Seq<char>, k: nat)
    requires
        k <= shorter_len(a, b),
    ensures
        matches_upto(a, b, k) == k <==> a.take(k as int) == b.take(k as int),
    decreases k,
{
    if k == 0 {
        assert(a.take(0) =~= b.take(0));
    } else {
        let j = (k - 1) as nat;
        lemma_matches_upto_full(a, b, j);
        lemma_matches_upto_bound(a, b, j);
        if matches_upto(a, b, k) == k {
            assert forall|i: int| 0 <= i < k implies a.take(k as int)[i] == b.take(k as int)[i] by {
                if i < j {
                    assert(a.take(j as int)[i] == b.take(j as int)[i]);
                }
            }
            assert(a.take(k as int) =~= b.take(k as int));
        }
        if a.take(k as int) == b.take(k as int) {
            assert(a[k - 1] == a.take(k as int)[k - 1]);
            assert(b[k - 1] == b.take(k as int)[k - 1]);
            assert(a.take(j as int) =~= a.take(k as int).take(j as int));
            assert(b.take(j as int) =~= b.take(k as int).take(j as int));
        }
    }
}

/// The outcome of holding one word against another does not depend on which
/// of the two comes first.
pub proof fn lemma_word_compare_symmetric(a: Seq<char>, b: Seq<char>)
    ensures
        matching_chars(a, b) == matching_chars(b, a),
        longer_len(a, b) == longer_len(b, a),
        word_correct(a, b) == word_correct(b, a),
{
    lemma_matches_upto_symmetric(a, b, shorter_len(a, b));
}

/// A word counts as right exactly if it is the target word: of equal length
/// and with the same character at each position.
pub proof fn lemma_word_correct_iff_equal(a: Seq<char>, b: Seq<char>)
    ensures
        word_correct(a, b) <==> a == b,
        matching_chars(a, b) <= shorter_len(a, b) <= longer_len(a, b),
{
    let k = shorter_len(a, b);
    lemma_matches_upto_bound(a, b, k);
    lemma_matches_upto_full(a, b, k);
    if a.len() == b.len() {
        assert(a.take(k as int) =~= a);
        assert(b.take(k as int) =~= b);
    }
}

/// No count of a tally exceeds the total of characters, and there are no
/// more words right than words.
pub proof fn lemma_tally_bounds(input: Seq<Seq<char>>, target: Seq<Seq<char>>, n: nat)
    ensures
        tally(input, target, n).char_corr <= tally(input, target, n).char_total,
        tally(input, target, n).correct_word_chars <= tally(input, target, n).char_corr,
        tally(input, target, n).word_corr <= n,
    decreases n,
{
    if n > 0 {
        lemma_tally_bounds(input, target, (n - 1) as nat);
        lemma_word_correct_iff_equal(input[n - 1], target[n - 1]);
    }
}

/// Where every typed word is its target word, every word counts as right and
/// every character too: the accuracy is full.
pub proof fn lemma_tally_of_right_words(input: Seq<Seq<char>>, n: nat)
    requires
        n <= input.len(),
    ensures
        tally(input, input, n).word_corr == n,
        tally(input, input, n).char_corr == tally(input, input, n).char_total,
        tally(input, input, n).correct_word_chars == tally(input, input, n).char_total,
    decreases n,
{
    if n > 0 {
        lemma_tally_of_right_words(input, (n - 1) as nat);
        lemma_word_correct_iff_equal(input[n - 1], input[n - 1]);
    }
}

/// The total of characters covers every character that was typed.
pub proof fn lemma_tally_counts_typed(
    input: Seq<Seq<char>>,
    target: Seq<Seq<char>>,
    n: nat,
    i: int,
)
    requires
        0 <= i < n,
    ensures
        tally(input, target, n).char_total >= input[i].len(),
    decreases n,
{
    if i < n - 1 {
        lemma_tally_counts_typed(input, target, (n - 1) as nat, i);
    }
}

/// The figures of a finished session.
#[derive(Clone, Copy, Debug)]
pub struct SessionStats {
    /// Characters typed right, with the spaces between the words typed right.
    pub char_corr: u128,
    /// Characters in all: for each word the longer length of typed and
    /// target word, with the same spaces.
    pub char_total: u128,
    /// Characters of the words typed right, with the same spaces.
    pub correct_word_chars: u128,
    /// Words typed right.
    pub word_corr: usize,
    /// Words typed.
    pub word_total: usize,
    /// How long the session took.
    pub duration: Duration,
}

impl Default for SessionStats {
    /// The figures of no session: every count is zero.
    fn default() -> (stats: Self)
        ensures
            stats.char_corr == 0,
            stats.char_total == 0,
            stats.correct_word_chars == 0,
            stats.word_corr == 0,
            stats.word_total == 0,
    {
        Self {
            char_corr: 0,
            char_total: 0,
            correct_word_chars: 0,
            word_corr: 0,
            word_total: 0,
            duration: Duration::default(),
        }
    }
}

impl SessionStats {
    /// Whether these are the figures for the typed words `input`, held
    /// against the target words `target` position by position: the tally of
    /// all words, with the spaces between the words typed right counted as
    /// characters typed right.
    pub open spec fn scores(&self, input: Seq<Seq<char>>, target: Seq<Seq<char>>) -> bool {
        let t = tally(input, target, input.len());
        &&& self.word_total == input.len()
        &&& self.word_corr == t.word_corr
        &&& self.char_corr == t.char_corr + spaces(t.word_corr)
        &&& self.char_total == t.char_total + spaces(t.word_corr)
        &&& self.correct_word_chars == t.correct_word_chars + spaces(t.word_corr)
    }

    /// Whether these are the figures of the session `session`: they score its
    /// typed words against the target words that stand against them, and
    /// hold its duration.
    pub open spec fn is_for(&self, session: SessionView) -> bool {
        &&& self.scores(session.input, attempted(session.input.len(), session.targets))
        &&& Some(self.duration) == session.duration
    }

    /// The figures of the finished session `session`: its typed words against
    /// the target words that stood against them, and its duration. No more
    /// characters count as right than there are in all, and the total is zero
    /// only if nothing at all is typed.
    pub fn from(session: &Session) -> (stats: Self)
        requires
            session.inv(),
            session@.state is Finished,
        ensures
            stats.is_for(session@),
            stats.correct_word_chars <= stats.char_corr <= stats.char_total,
            stats.word_corr <= stats.word_total,
            stats.char_total == 0 ==> forall|i: int|
                0 <= i < session@.input.len() ==> (#[trigger] session@.input[i]).len() == 0,
    {
        let mut char_total: u128 = 0;
        let mut char_corr: u128 = 0;
        let mut word_corr: usize = 0;
        // used to calculate wpm
        let mut correct_word_chars: u128 = 0;

        let input_words = session.get_input_words();
        let attempted_words = session.get_attempted_words();
        let ghost input = session@.input;
        let ghost target = attempted(session@.input.len(), session@.targets);
        let n = input_words.len();
        assert(texts(attempted_words@).len() == n);

        let mut i: usize = 0;
        while i < n
            invariant
                i <= n,
                n == input_words@.len(),
                n == attempted_words@.len(),
                texts(input_words@) == input,
                texts(attempted_words@) == target,
                char_corr == tally(input, target, i as nat).char_corr,
                char_total == tally(input, target, i as nat).char_total,
                word_corr == tally(input, target, i as nat).word_corr,
                correct_word_chars == tally(input, target, i as nat).correct_word_chars,
                char_total <= i * 0xffff_ffff_ffff_ffff,
            decreases n - i,
        {
            proof {
                lemma_tally_bounds(input, target, i as nat);
                lemma_tally_bounds(input, target, (i + 1) as nat);
            }
            let (corr, ttl, is_correct) = Self::word_compare(
                input_words[i].as_str(),
                attempted_words[i].as_str(),
            );
            char_corr += corr as u128;
            char_total += ttl as u128;
            if is_correct {
                word_corr += 1;
                correct_word_chars += ttl as u128;
            }
            i += 1;
        }

        proof {
            lemma_tally_bounds(input, target, n as nat);
            assert forall|j: int| 0 <= j < input.len() && char_total == 0 implies (
            #[trigger] input[j]).len() == 0 by {
                lemma_tally_counts_typed(input, target, n as nat, j);
            }
        }

        // account for spaces
        let between: u128 = if word_corr == 0 {
            0
        } else {
            (word_corr - 1) as u128
        };
        correct_word_chars += between;
        char_corr += between;
        char_total += between;

        let duration = session.get_final_duration_s().unwrap();

        Self { char_corr, char_total, correct_word_chars, word_corr, word_total: n, duration }
    }

    /// Holds the typed word `inp` against the target word `targ`: the number
    /// of positions at which both hold the same character, the length of the
    /// longer of the two, and whether the typed word is right, which is
    /// whether these two numbers are equal.
    pub fn word_compare(inp: &str, targ: &str) -> (r: (usize, usize, bool))
        ensures
            r.0 == matching_chars(inp@, targ@),
            r.1 == longer_len(inp@, targ@),
            r.2 == word_correct(inp@, targ@),
    {
        broadcast use vstd::string::group_string_axioms;

        let inp_len = inp.unicode_len();
        let targ_len = targ.unicode_len();
        let mut inp_chars = inp.chars();
        let mut targ_chars = targ.chars();
        let mut char_corr: usize = 0;
        let ghost mut k: int = 0;
        loop
            invariant_except_break
                inp_chars.remaining() == inp@.skip(k),
                targ_chars.remaining() == targ@.skip(k),
            invariant
                inp_len == inp@.len(),
                targ_len == targ@.len(),
                0 <= k <= shorter_len(inp@, targ@),
                char_corr == matches_upto(inp@, targ@, k as nat),
            ensures
                k == shorter_len(inp@, targ@),
            decreases shorter_len(inp@, targ@) - k,
        {
            let inp_next = inp_chars.next();
            let targ_next = targ_chars.next();
            match (inp_next, targ_next) {
                (Some(inp_ch), Some(targ_ch)) => {
                    proof {
                        lemma_matches_upto_bound(inp@, targ@, k as nat);
                        k = k + 1;
                    }
                    if inp_ch == targ_ch {
                        char_corr += 1;
                    }
                },
                _ => {
                    break ;
                },
            }
        }

        let ttl_chars: usize = if targ_len > inp_len {
            targ_len
        } else {
            inp_len
        };

        (char_corr, ttl_chars, char_corr == ttl_chars)
    }
}

} // verus!
