//! The application around a session: a menu, the typing test, and the
//! figures of the last test that was finished.

use crate::session::{char_step, del_step, space_step, Session, SessionState, SessionView};
use crate::stats::SessionStats;
use crate::words::{content_text, loaded, LoadError};
use vstd::prelude::*;

verus! {

/// What the application shows.
#[derive(Clone, Copy, Debug, PartialEq, Eq, Structural)]
pub enum AppState {
    /// The menu, from which a test is opened.
    Menu,
    /// A typing test.
    Typing,
    /// The figures of the test that was finished last.
    Stats,
}

/// A key, as far as the application tells keys apart.
#[derive(Clone, Copy, Debug, PartialEq, Eq, Structural)]
pub enum Key {
    /// A key that types a character, the space among them.
    Char(char),
    Backspace,
    Delete,
    Enter,
    Esc,
    /// Any other key.
    Other,
}

/// What an application is, as plain values.
pub struct AppView {
    /// What the application shows.
    pub state: AppState,
    /// Whether the application has been told to end.
    pub quit: bool,
    /// The session of the present or the last test.
    pub session: SessionView,
    /// The figures of the last test that was finished.
    pub stats: SessionStats,
    /// The passage that a test is on, if one was given.
    pub default_text: Option<Seq<char>>,
    /// The number of random words of a test, if one was given.
    pub default_word_count: Option<usize>,
    /// The text of the word list that random words are drawn from.
    pub word_list: Seq<char>,
}

impl AppView {
    /// Whether `session` is a fresh session as this application opens one: on
    /// the passage if there is one, else of as many random words as were
    /// asked for, 25 if no number was given.
    pub open spec fn opens(self, session: SessionView) -> bool {
        match self.default_text {
            Some(text) => session.fresh_on(text),
            None => session.fresh_random(
                match self.default_word_count {
                    Some(count) => count,
                    None => 25,
                },
                Some(self.word_list),
            ),
        }
    }

    /// Whether `post` is what pressing enter makes of this application: the
    /// menu opens a fresh test, the figures give way to the menu, and a test
    /// goes on as if nothing had been pressed. The figures of the last
    /// finished test stay.
    pub open spec fn entered(self, post: AppView) -> bool {
        match self.state {
            AppState::Menu => {
                &&& self.opens(post.session)
                &&& post == (AppView { state: AppState::Typing, session: post.session, ..self })
            },
            AppState::Stats => post == (AppView { state: AppState::Menu, ..self }),
            AppState::Typing => post == self,
        }
    }

    /// Whether `post` is what a space makes of this application: a word
    /// boundary for the test, and nothing outside of one. A test that this
    /// finishes is scored and its figures are shown.
    pub open spec fn spaced(self, post: AppView) -> bool {
        if self.state is Typing {
            &&& space_step(self.session, post.session)
            &&& self.settles(post.session, post)
        } else {
            post == self
        }
    }

    /// Whether `post` is what typing the character `c` makes of this
    /// application: it goes to the test, and nowhere outside of one. A test
    /// that this finishes is scored and its figures are shown.
    pub open spec fn keyed(self, post: AppView, c: char) -> bool {
        if self.state is Typing {
            &&& char_step(self.session, post.session, c)
            &&& self.settles(post.session, post)
        } else {
            post == self
        }
    }

    /// Whether `post` is what a deletion makes of this application: a
    /// deletion for the test, and nothing outside of one.
    pub open spec fn deleted(self, post: AppView) -> bool {
        if self.state is Typing {
            &&& del_step(self.session, post.session)
            &&& post == (AppView { session: post.session, ..self })
        } else {
            post == self
        }
    }

    /// Whether `post` is what the key `key` makes of this application: a
    /// space is a word boundary and any other character is typed; backspace
    /// and delete delete; enter is enter, escape tells the application to
    /// end, and any other key does nothing.
    pub open spec fn handled(self, post: AppView, key: Key) -> bool {
        match key {
            Key::Char(c) => if c == ' ' {
                self.spaced(post)
            } else {
                self.keyed(post, c)
            },
            Key::Backspace | Key::Delete => self.deleted(post),
            Key::Enter => self.entered(post),
            Key::Esc => post == (AppView { quit: true, ..self }),
            Key::Other => post == self,
        }
    }

    /// Whether `post` is this application after it has looked at its session
    /// `session`: a finished session is scored and its figures are shown;
    /// else the application shows what it showed and keeps the figures it
    /// had.
    pub open spec fn settles(self, session: SessionView, post: AppView) -> bool {
        if self.state is Typing && session.state is Finished {
            &&& post.stats.is_for(session)
            &&& post == (AppView { state: AppState::Stats, session, stats: post.stats, ..self })
        } else {
            post == (AppView { session, ..self })
        }
    }
}

/// The figures of the last finished test stay until the next test finishes:
/// a key changes them only by finishing the test that is being typed, and the
/// figures are then those of that test.
pub proof fn lemma_figures_stay_until_finish(pre: AppView, post: AppView, key: Key)
    requires
        pre.handled(post, key),
        post.stats != pre.stats,
    ensures
        pre.state is Typing,
        post.state is Stats,
        post.session.state is Finished,
        post.stats.is_for(post.session),
{
}

/// One application.
pub struct App {
    state: AppState,
    quit: bool,
    active_session: Session,
    active_stats: SessionStats,
    default_text: Option<String>,
    default_word_count: Option<usize>,
    word_list: String,
}

impl View for App {
    type V = AppView;

    closed spec fn view(&self) -> AppView {
        AppView {
            state: self.state,
            quit: self.quit,
            session: self.active_session@,
            stats: self.active_stats,
            default_text: match self.default_text {
                Some(text) => Some(text@),
                None => None,
            },
            default_word_count: self.default_word_count,
            word_list: self.word_list@,
        }
    }
}

impl App {
    /// What the session of the application keeps true of itself.
    pub closed spec fn session_inv(&self) -> bool {
        self.active_session.inv()
    }

    /// What holds of an application at any time: its session is well formed,
    /// and its word list holds a word.
    pub open spec fn wf(&self) -> bool {
        &&& self.session_inv()
        &&& loaded(Some(self@.word_list)) is Ok
    }

    /// What holds of an application between two events: it is well formed,
    /// and while it shows the typing test the session is not finished.
    pub open spec fn inv(&self) -> bool {
        &&& self.wf()
        &&& (self@.state is Typing ==> !(self@.session.state is Finished))
    }

    /// Whether `r` is what making an application from a word list gives: one
    /// that shows the menu, with the defaults given and a session of 25
    /// random words in waiting, or the reason why the list gave no
    /// candidates.
    pub open spec fn made(
        r: Result<Self, LoadError>,
        default_text: Option<Seq<char>>,
        default_word_count: Option<usize>,
        content: Option<Seq<char>>,
    ) -> bool {
        match r {
            Ok(app) => {
                &&& content matches Some(text)
                &&& app.inv()
                &&& app@.state is Menu
                &&& !app@.quit
                &&& app@.session.fresh_random(25, content)
                &&& app@.stats.char_corr == 0
                &&& app@.stats.char_total == 0
                &&& app@.stats.correct_word_chars == 0
                &&& app@.stats.word_corr == 0
                &&& app@.stats.word_total == 0
                &&& app@.default_text == default_text
                &&& app@.default_word_count == default_word_count
                &&& app@.word_list == text
            },
            Err(e) => loaded(content) == Err::<Seq<Seq<char>>, LoadError>(e),
        }
    }

    fn new(
        default_text: Option<String>,
        default_word_count: Option<usize>,
        content: Option<&str>,
    ) -> (r: Result<Self, LoadError>)
        ensures
            Self::made(
                r,
                match default_text {
                    Some(text) => Some(text@),
                    None => None,
                },
                default_word_count,
                content_text(content),
            ),
    {
        match content {
            None => Err(LoadError::Unreadable),
            Some(text) => match Session::default(content) {
                Err(e) => Err(e),
                Ok(session) => Ok(
                    Self {
                        state: AppState::Menu,
                        active_session: session,
                        active_stats: SessionStats::default(),
                        quit: false,
                        default_text,
                        default_word_count,
                        word_list: text.to_owned(),
                    },
                ),
            },
        }
    }

    /// An application whose tests are of 25 random words from the word list
    /// `content` (one word per line; `None` for a list that could not be
    /// read).
    pub fn default(content: Option<&str>) -> (r: Result<Self, LoadError>)
        ensures
            Self::made(r, None, None, content_text(content)),
    {
        Self::new(None, None, content)
    }

    /// An application whose tests are on the passage `default_text`.
    pub fn from_str(default_text: String, content: Option<&str>) -> (r: Result<Self, LoadError>)
        ensures
            Self::made(r, Some(default_text@), None, content_text(content)),
    {
        Self::new(Some(default_text), None, content)
    }

    /// An application whose tests are of `word_count` random words from the
    /// word list `content`.
    pub fn with_word_count(word_count: usize, content: Option<&str>) -> (r: Result<
        Self,
        LoadError,
    >)
        ensures
            Self::made(r, None, Some(word_count), content_text(content)),
    {
        Self::new(None, Some(word_count), content)
    }

    /// What the application shows.
    pub fn state(&self) -> (state: AppState)
        ensures
            state == self@.state,
    {
        self.state
    }

    /// Whether the application has been told to end.
    pub fn quit(&self) -> (quit: bool)
        ensures
            quit == self@.quit,
    {
        self.quit
    }

    /// The session of the present or the last test.
    pub fn active_session(&self) -> (session: &Session)
        ensures
            session@ == self@.session,
            session.inv() == self.session_inv(),
    {
        &self.active_session
    }

    /// The figures of the last test that was finished; all zero before the
    /// first.
    pub fn active_stats(&self) -> (stats: &SessionStats)
        ensures
            *stats == self@.stats,
    {
        &self.active_stats
    }

    /// Escape was pressed: the application is told to end.
    pub fn on_esc(&mut self)
        requires
            old(self).inv(),
        ensures
            final(self).inv(),
            final(self)@ == (AppView { quit: true, ..old(self)@ }),
    {
        self.quit = true;
    }

    /// Enter was pressed: see `AppView::entered`.
    pub fn on_enter(&mut self)
        requires
            old(self).inv(),
        ensures
            final(self).inv(),
            old(self)@.entered(final(self)@),
    {
        match self.state {
            AppState::Menu => self.open_typing(),
            AppState::Stats => self.open_menu(),
            _ => {},  // do nothing in typing mode
        }
    }

    /// Space was pressed: see `AppView::spaced`.
    pub fn on_space(&mut self)
        requires
            old(self).inv(),
        ensures
            final(self).inv(),
            old(self)@.spaced(final(self)@),
    {
        match self.state {
            AppState::Typing => self.active_session.on_space(),
            _ => {},  // do nothing in menu or stats
        }
        self.check_state();
    }

    /// The character `c` was typed: see `AppView::keyed`.
    pub fn on_key(&mut self, c: char)
        requires
            old(self).inv(),
        ensures
            final(self).inv(),
            old(self)@.keyed(final(self)@, c),
    {
        match self.state {
            AppState::Typing => self.active_session.on_char(c),
            _ => {},  // do nothing in menu or stats
        }
        self.check_state();
    }

    /// Backspace or delete was pressed: see `AppView::deleted`.
    pub fn on_del(&mut self)
        requires
            old(self).inv(),
        ensures
            final(self).inv(),
            old(self)@.deleted(final(self)@),
    {
        match self.state {
            AppState::Typing => self.active_session.on_del(),
            _ => {},  // do nothing in menu or stats
        }
    }

    /// Looks at the session: if the test that is shown has finished, it is
    /// scored and its figures are shown.
    pub fn check_state(&mut self)
        requires
            old(self).wf(),
        ensures
            final(self).inv(),
            old(self)@.settles(old(self)@.session, final(self)@),
    {
        match self.state {
            AppState::Typing => {
                if self.active_session.state() == SessionState::Finished {
                    self.open_stats();
                }
            },
            _ => {},
        }
    }

    // helpers
    fn open_typing(&mut self)
        requires
            old(self).wf(),
        ensures
            final(self).inv(),
            old(self)@.opens(final(self)@.session),
            final(self)@ == (AppView {
                state: AppState::Typing,
                session: final(self)@.session,
                ..old(self)@
            }),
    {
        let session = match &self.default_text {
            Some(default_text) => Session::from(default_text.clone()),
            None => {
                let fresh = match self.default_word_count {
                    Some(default_count) => Session::random_with_size(
                        default_count,
                        Some(self.word_list.as_str()),
                    ),
                    None => Session::default(Some(self.word_list.as_str())),
                };
                match fresh {
                    Ok(session) => session,
                    Err(_) => vstd::pervasive::unreached(),
                }
            },
        };
        self.active_session = session;
        self.state = AppState::Typing;
    }

    fn open_stats(&mut self)
        requires
            old(self).wf(),
            old(self)@.session.state is Finished,
        ensures
            final(self).wf(),
            final(self)@.stats.is_for(old(self)@.session),
            final(self)@ == (AppView {
                state: AppState::Stats,
                stats: final(self)@.stats,
                ..old(self)@
            }),
    {
        self.active_stats = SessionStats::from(&self.active_session);
        self.state = AppState::Stats;
    }

    fn open_menu(&mut self)
        requires
            old(self).inv(),
        ensures
            final(self).inv(),
            final(self)@ == (AppView { state: AppState::Menu, ..old(self)@ }),
    {
        self.state = AppState::Menu;
    }
}

/// Hands the key `key` to the application `app`: see `AppView::handled`.
pub fn handle_key_event(key: Key, app: &mut App)
    requires
        old(app).inv(),
    ensures
        final(app).inv(),
        old(app)@.handled(final(app)@, key),
{
    match key {
        Key::Char(c) => {
            if c == ' ' {
                app.on_space();
            } else {
                app.on_key(c);
            }
        },
        Key::Backspace | Key::Delete => app.on_del(),
        Key::Enter => app.on_enter(),
        Key::Esc => app.on_esc(),
        Key::Other => {},
    }
}

} // verus!
