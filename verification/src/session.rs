//! The typing session: what has been typed, against which target words, and
//! whether the test is still waiting, running or over.

use crate::text::{lemma_texts_push, split_on, texts, word_at};
use crate::words::{
    content_text, loaded, LoadError, RandomWordGenerator, StaticWordGenerator, WordGenerator,
};
use std::time::{Duration, Instant};
use vstd::prelude::*;

verus! {

/// Where a session stands. It starts idle, becomes active with the first
/// character, and once finished it stays finished.
#[derive(Clone, Copy, Debug, PartialEq, Eq, Structural)]
pub enum SessionState {
    /// Nothing was typed yet.
    Idle,
    /// The test is running.
    Active,
    /// The test is over.
    Finished,
}

/// What a session is, as plain values.
pub struct SessionView {
    /// Where the session stands.
    pub state: SessionState,
    /// The words typed so far; the last one is the word being typed.
    pub input: Seq<Seq<char>>,
    /// The clock's reading when the session became active.
    pub start_time: Option<Instant>,
    /// How long the session had been active when it finished.
    pub duration: Option<Duration>,
    /// The target words that exist so far.
    pub targets: Seq<Seq<char>>,
    /// The number of words the test asks for, if it has one.
    pub declared: Option<usize>,
    /// Whether the source of target words makes new words on demand.
    pub grows: bool,
}

/// The input after the character `c` was typed: it goes to the end of the
/// last word.
pub open spec fn typed(input: Seq<Seq<char>>, c: char) -> Seq<Seq<char>>
    recommends
        input.len() >= 1,
{
    input.update(input.len() - 1, input.last().push(c))
}

/// The input after a word boundary: a new empty word starts, unless the last
/// word is empty still.
pub open spec fn advanced(input: Seq<Seq<char>>) -> Seq<Seq<char>>
    recommends
        input.len() >= 1,
{
    if input.last().len() > 0 {
        input.push(Seq::empty())
    } else {
        input
    }
}

/// The input after a deletion: the last word loses its last character; an
/// empty last word is dropped instead, unless it is the only word.
pub open spec fn erased(input: Seq<Seq<char>>) -> Seq<Seq<char>>
    recommends
        input.len() >= 1,
{
    if input.last().len() > 0 {
        input.update(input.len() - 1, input.last().drop_last())
    } else if input.len() > 1 {
        input.drop_last()
    } else {
        input
    }
}

/// Whether the typist is at the last word that the test asks for.
pub open spec fn at_last_word(input: Seq<Seq<char>>, declared: Option<usize>) -> bool {
    declared matches Some(n) && n == input.len()
}

/// Whether the typist is at the last word that the test asks for and has
/// typed it exactly.
pub open spec fn completes(
    input: Seq<Seq<char>>,
    declared: Option<usize>,
    targets: Seq<Seq<char>>,
) -> bool
    recommends
        input.len() >= 1,
{
    at_last_word(input, declared) && word_at(targets, input.len() - 1) == Some(input.last())
}

/// The target words that stand against `n` typed words: the target at each
/// position, and the empty word where the targets have run out.
pub open spec fn attempted(n: nat, targets: Seq<Seq<char>>) -> Seq<Seq<char>> {
    Seq::new(
        n,
        |i: int|
            match word_at(targets, i) {
                Some(w) => w,
                None => Seq::empty(),
            },
    )
}

impl SessionView {
    /// What holds of every session: there is always a word being typed; the
    /// start time is there from the moment the session is active, the
    /// duration from the moment it is finished; and an idle session has
    /// nothing typed.
    pub open spec fn wf(self) -> bool {
        &&& self.input.len() >= 1
        &&& (self.state is Idle <==> self.start_time is None)
        &&& (self.state is Finished <==> self.duration is Some)
        &&& (self.state is Idle ==> self.input == seq![Seq::<char>::empty()])
    }

    /// Whether this is a session on which nothing has happened yet.
    pub open spec fn fresh(self) -> bool {
        &&& self.state is Idle
        &&& self.input == seq![Seq::<char>::empty()]
        &&& self.start_time is None
        &&& self.duration is None
    }

    /// Whether this is a fresh session of `s` random words from a word list:
    /// nothing has happened on it, the list has candidates, and the session
    /// has `s` target words out of them, with more to come on demand.
    pub open spec fn fresh_random(self, s: usize, content: Option<Seq<char>>) -> bool {
        &&& loaded(content) matches Ok(pool)
        &&& self.fresh()
        &&& self.declared == Some(s)
        &&& self.grows
        &&& self.targets.len() == s
        &&& RandomWordGenerator::drawn_from(self.targets, pool)
    }

    /// Whether this is a fresh session on the passage `text`: nothing has
    /// happened on it, and its target words are the pieces of the passage
    /// between single spaces, all there from the start.
    pub open spec fn fresh_on(self, text: Seq<char>) -> bool {
        &&& self.fresh()
        &&& self.targets == split_on(text, ' ')
        &&& self.declared matches Some(n)
        &&& n == self.targets.len()
        &&& !self.grows
    }
}

/// Whether `post` is what typing the character `c` makes of the session
/// `pre`. The character goes to the last word. The session is active
/// afterwards, or finished if the typist is at the last word that the test
/// asks for and this word is now exactly its target; an active session keeps
/// its start time. The target words that existed stay; a source that grows
/// extends them as far as the word looked at, and only then.
pub open spec fn char_step(pre: SessionView, post: SessionView, c: char) -> bool {
    &&& post.input == typed(pre.input, c)
    &&& post.state == if completes(post.input, post.declared, post.targets) {
        SessionState::Finished
    } else {
        SessionState::Active
    }
    &&& (pre.state is Active ==> post.start_time == pre.start_time)
    &&& post.declared == pre.declared
    &&& post.grows == pre.grows
    &&& post.targets.take(pre.targets.len() as int) == pre.targets
    &&& post.targets.len() == if at_last_word(pre.input, pre.declared) && pre.grows
        && pre.input.len() > pre.targets.len() {
        pre.input.len()
    } else {
        pre.targets.len()
    }
}

/// Whether `post` is what a word boundary makes of the session `pre`. An
/// idle session stays as it is. At the last word that the test asks for the
/// session finishes, whatever has been typed of that word. Else a new word
/// starts, unless the last one is empty still.
pub open spec fn space_step(pre: SessionView, post: SessionView) -> bool {
    if pre.state is Idle {
        post == pre
    } else if at_last_word(pre.input, pre.declared) {
        post == (SessionView { state: SessionState::Finished, duration: post.duration, ..pre })
    } else {
        post == (SessionView { input: advanced(pre.input), ..pre })
    }
}

/// Whether `post` is what a deletion makes of the session `pre`: only the
/// input changes.
pub open spec fn del_step(pre: SessionView, post: SessionView) -> bool {
    post == (SessionView { input: erased(pre.input), ..pre })
}

/// Whether one event on the session `pre` can give `post`.
pub open spec fn step(pre: SessionView, post: SessionView) -> bool {
    &&& !(pre.state is Finished)
    &&& {
        ||| exists|c: char| char_step(pre, post, c)
        ||| space_step(pre, post)
        ||| del_step(pre, post)
    }
}

/// Whatever events come in whatever order on a fresh session, there is
/// always at least one typed word, the last of them being the word under
/// construction.
pub proof fn lemma_events_keep_a_word(trace: Seq<SessionView>)
    requires
        trace.len() >= 1,
        trace[0].fresh(),
        forall|i: int| 0 < i < trace.len() ==> step(#[trigger] trace[i - 1], trace[i]),
    ensures
        forall|i: int| 0 <= i < trace.len() ==> (#[trigger] trace[i]).input.len() >= 1,
    decreases trace.len(),
{
    if trace.len() > 1 {
        let init = trace.drop_last();
        let last = trace.len() - 1;
        assert forall|i: int| 0 < i < init.len() implies step(#[trigger] init[i - 1], init[i]) by {
            assert(step(trace[i - 1], trace[i]));
        }
        lemma_events_keep_a_word(init);
        assert(step(trace[last - 1], trace[last]));
        assert(init[last - 1].input.len() >= 1);
        assert forall|i: int| 0 <= i < trace.len() implies (#[trigger] trace[i]).input.len()
            >= 1 by {
            if i < last {
                assert(init[i].input.len() >= 1);
            }
        }
    }
}

/// An event leaves every word but the last as it was typed: the words
/// before the last one, as far as they are still there, are the same before
/// and after.
pub proof fn lemma_step_keeps_committed_words(pre: SessionView, post: SessionView, i: int)
    requires
        pre.input.len() >= 1,
        step(pre, post),
        0 <= i < pre.input.len() - 1,
        i < post.input.len() - 1,
    ensures
        post.input[i] == pre.input[i],
{
}

/// On target words that do not grow, typing a character leaves nothing open
/// but the clock readings: the target words stay as they are, and the input
/// and the state afterwards are given by those before.
pub proof fn lemma_char_step_determined(pre: SessionView, c: char, a: SessionView, b: SessionView)
    requires
        !pre.grows,
        char_step(pre, a, c),
        char_step(pre, b, c),
    ensures
        a.targets == pre.targets,
        b.targets == pre.targets,
        a.input == b.input,
        a.state == b.state,
{
    assert(a.targets =~= pre.targets);
    assert(b.targets =~= pre.targets);
}

/// The start time is set once: an event on a session that has started
/// leaves the start time as it is.
pub proof fn lemma_step_keeps_start_time(pre: SessionView, post: SessionView)
    requires
        pre.wf(),
        pre.start_time is Some,
        step(pre, post),
    ensures
        post.start_time == pre.start_time,
{
}

/// A deletion undoes a character: typing one and deleting gives the input
/// back.
pub proof fn lemma_erase_undoes_typing(input: Seq<Seq<char>>, c: char)
    requires
        input.len() >= 1,
    ensures
        erased(typed(input, c)) == input,
{
    assert(input.last().push(c).drop_last() =~= input.last());
}

/// One typing test.
pub struct Session {
    state: SessionState,
    start_time: Option<Instant>,
    duration: Option<Duration>,
    target_words: Box<dyn WordGenerator>,
    input: Vec<String>,
}

impl View for Session {
    type V = SessionView;

    closed spec fn view(&self) -> SessionView {
        SessionView {
            state: self.state,
            input: texts(self.input@),
            start_time: self.start_time,
            duration: self.duration,
            targets: self.target_words.words(),
            declared: self.target_words.declared_len(),
            grows: self.target_words.grows(),
        }
    }
}

impl Session {
    /// What the source of target words keeps true of itself.
    pub closed spec fn source_inv(&self) -> bool {
        self.target_words.inv()
    }

    /// What every session keeps true: its view is well formed, and so is its
    /// source of target words.
    pub open spec fn inv(&self) -> bool {
        &&& self@.wf()
        &&& self.source_inv()
    }

    /// A fresh session of 25 random words from the word list `content`.
    pub fn default(content: Option<&str>) -> (r: Result<Self, LoadError>)
        ensures
            Self::random_session(r, 25, content_text(content)),
    {
        Self::random_with_size(25, content)
    }

    /// Whether `r` is what asking for a fresh session of `s` random words
    /// from a word list gives: such a session, or the reason why the list
    /// gave no candidates.
    pub open spec fn random_session(
        r: Result<Self, LoadError>,
        s: usize,
        content: Option<Seq<char>>,
    ) -> bool {
        match r {
            Ok(session) => session.inv() && session@.fresh_random(s, content),
            Err(e) => loaded(content) == Err::<Seq<Seq<char>>, LoadError>(e),
        }
    }

    /// A fresh session of `s` random words from the word list `content` (one
    /// word per line; `None` for a list that could not be read).
    pub fn random_with_size(s: usize, content: Option<&str>) -> (r: Result<Self, LoadError>)
        ensures
            Self::random_session(r, s, content_text(content)),
    {
        match RandomWordGenerator::with_size(s, content) {
            Ok(generator) => {
                let mut input: Vec<String> = Vec::new();
                input.push(String::new());
                assert(texts(input@) =~= seq![Seq::<char>::empty()]);
                Ok(
                    Self {
                        state: SessionState::Idle,
                        start_time: None,
                        duration: None,
                        target_words: Box::new(generator),
                        input,
                    },
                )
            },
            Err(e) => Err(e),
        }
    }

    /// A fresh session on the passage `s`, whose words are its pieces between
    /// single spaces.
    pub fn from(s: String) -> (session: Self)
        ensures
            session.inv(),
            session@.fresh_on(s@),
    {
        let generator = StaticWordGenerator::from(s);
        let mut input: Vec<String> = Vec::new();
        input.push(String::new());
        assert(texts(input@) =~= seq![Seq::<char>::empty()]);
        Self {
            state: SessionState::Idle,
            start_time: None,
            duration: None,
            target_words: Box::new(generator),
            input,
        }
    }

    /// Where the session stands.
    pub fn state(&self) -> (state: SessionState)
        ensures
            state == self@.state,
    {
        self.state
    }

    /// The source of the target words, for lookups that leave it as it is.
    pub fn target_words(&self) -> (source: &Box<dyn WordGenerator>)
        ensures
            source.inv() == self.source_inv(),
            source.words() == self@.targets,
            source.declared_len() == self@.declared,
            source.grows() == self@.grows,
    {
        &self.target_words
    }

    /// Makes an idle session active and reads the clock.
    pub fn start_session(&mut self)
        requires
            old(self).inv(),
            old(self)@.state is Idle,
        ensures
            final(self).inv(),
            final(self)@ == (SessionView {
                state: SessionState::Active,
                start_time: final(self)@.start_time,
                ..old(self)@
            }),
    {
        self.state = SessionState::Active;
        self.start_time = Some(Instant::now());
    }

    /// Finishes an active session and keeps the time since its start.
    pub fn stop_session(&mut self)
        requires
            old(self).inv(),
            old(self)@.state is Active,
        ensures
            final(self).inv(),
            final(self)@ == (SessionView {
                state: SessionState::Finished,
                duration: final(self)@.duration,
                ..old(self)@
            }),
    {
        match &self.start_time {
            Some(start) => {
                self.duration = Some(start.elapsed());
            },
            None => {},
        }
        self.state = SessionState::Finished;
    }

    /// The character `c` was typed. An idle session starts with it. The
    /// session finishes if this completes the last word that the test asks
    /// for.
    pub fn on_char(&mut self, c: char)
        requires
            old(self).inv(),
            !(old(self)@.state is Finished),
        ensures
            final(self).inv(),
            char_step(old(self)@, final(self)@, c),
    {
        if self.state == SessionState::Idle {
            self.start_session();
        }
        let input_len = self.input.len();
        self.input[input_len - 1].push(c);
        assert(self@.input =~= typed(old(self)@.input, c));
        assert(self@.targets.take(self@.targets.len() as int) =~= self@.targets);

        // check to end the session
        if self.target_words.len() == Some(input_len) {
            let last_target_word = self.target_words.get_word_at(input_len - 1);
            match last_target_word {
                Some(word) => {
                    if word == self.input[input_len - 1] {
                        self.stop_session();
                    }
                },
                None => {},
            }
        }
    }

    /// A word boundary (a space) was typed. An idle session ignores it. At
    /// the last word that the test asks for it finishes the session, whatever
    /// has been typed of that word. Else it starts a new word, unless the
    /// last one is empty still.
    pub fn on_space(&mut self)
        requires
            old(self).inv(),
            !(old(self)@.state is Finished),
        ensures
            final(self).inv(),
            space_step(old(self)@, final(self)@),
    {
        if self.state == SessionState::Idle {
            return ;
        }
        let input_len = self.input.len();

        if self.target_words.len() == Some(input_len) {
            self.stop_session();
            return ;
        }
        // ignore spaces if the last word is already empty

        if !self.input[input_len - 1].as_str().is_empty() {
            let word = String::new();
            proof {
                lemma_texts_push(self.input@, word);
            }
            self.input.push(word);
        }
    }

    /// A deletion was typed: see `erased`. Neither the state nor the clock
    /// readings nor the target words change.
    pub fn on_del(&mut self)
        requires
            old(self).inv(),
            !(old(self)@.state is Finished),
        ensures
            final(self).inv(),
            del_step(old(self)@, final(self)@),
    {
        let input_len = self.input.len();
        if self.input[input_len - 1].as_str().is_empty() {
            if input_len != 1 {
                self.input.pop();  // remove last word
                assert(self@.input =~= erased(old(self)@.input));
            }
        } else {
            self.input[input_len - 1].pop();  // remove last char
            assert(self@.input =~= erased(old(self)@.input));
        }
    }

    /// The time since the session became active; `None` while it is idle.
    pub fn get_age_s(&self) -> (age: Option<Duration>)
        requires
            self.inv(),
        ensures
            age is Some <==> !(self@.state is Idle),
    {
        if self.state == SessionState::Idle {
            return None;
        }
        match &self.start_time {
            Some(start) => Some(start.elapsed()),
            None => None,
        }
    }

    /// How long the session took; `None` until it is finished.
    pub fn get_final_duration_s(&self) -> (duration: Option<Duration>)
        ensures
            duration == self@.duration,
    {
        self.duration
    }

    /// A copy of the words typed so far.
    pub fn get_input_words(&self) -> (words: Vec<String>)
        ensures
            texts(words@) == self@.input,
    {
        self.input.clone()
    }

    /// The target word for each word typed so far, and the empty word where
    /// the typist has gone past the target words that exist. The source of
    /// the target words is only read.
    pub fn get_attempted_words(&self) -> (words: Vec<String>)
        requires
            self.inv(),
        ensures
            texts(words@) == attempted(self@.input.len(), self@.targets),
    {
        let l = self.input.len();
        let mut words: Vec<String> = Vec::with_capacity(l);
        let mut i: usize = 0;
        while i < l
            invariant
                i <= l,
                l == self.input@.len(),
                self.inv(),
                texts(words@) =~= attempted(i as nat, self@.targets),
            decreases l - i,
        {
            let word = match self.target_words.get_word_at_frozen(i) {
                Some(w) => w,
                None => String::new(),
            };
            proof {
                lemma_texts_push(words@, word);
            }
            words.push(word);
            i += 1;
        }
        words
    }

    /// The position of the word being typed.
    pub fn get_cursor_word(&self) -> (index: usize)
        requires
            self.inv(),
        ensures
            index == self@.input.len() - 1,
    {
        self.input.len() - 1
    }

    /// The number of characters of the word being typed.
    pub fn get_cursor_char(&self) -> (index: usize)
        requires
            self.inv(),
        ensures
            index == self@.input.last().len(),
    {
        let last = self.input.len() - 1;
        self.input[last].as_str().unicode_len()
    }
}

} // verus!
