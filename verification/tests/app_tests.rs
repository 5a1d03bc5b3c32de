use std::time::Duration;
use termtype::app::{handle_key_event, App, AppState, Key};
use termtype::session::{Session, SessionState};
use termtype::stats::SessionStats;
use termtype::words::{LoadError, StaticWordGenerator, WordGenerator};

const PASSAGE: &str = "The quick brown fox jumps over the lazy dog";
const WORD_LIST: &str = "alpha\nbeta\ngamma\ndelta\n";

fn passage_app() -> App {
    match App::from_str(PASSAGE.to_string(), Some(WORD_LIST)) {
        Ok(app) => app,
        Err(e) => panic!("the word list gave no words: {:?}", e),
    }
}

fn accuracy(stats: &SessionStats) -> f32 {
    (stats.char_corr as f32) / (stats.char_total as f32)
}

#[test]
fn test_1() {
    let mut app = passage_app();
    app.on_enter();
    assert_eq!(app.state(), AppState::Typing);
    app.on_key('a');
    app.on_key('b');
    app.on_key('c');
    assert_eq!(app.active_session().get_input_words()[0], "abc");
    app.on_space();
    assert_eq!(app.active_session().get_input_words()[1], "");
    app.on_key('d');
    app.on_key('e');
    app.on_key('f');
    assert_eq!(app.active_session().get_input_words()[1], "def");

    assert_eq!(app.active_session().get_input_words(), vec!["abc", "def"]);
    assert_eq!(app.active_session().get_attempted_words(), vec!["The", "quick"]);

    app.on_del();
    app.on_del();
    assert_eq!(app.active_session().get_input_words()[1], "d");
    app.on_del();
    app.on_del();
    app.on_del();
    app.on_del();
    assert_eq!(app.active_session().get_input_words()[0], "a");
    assert_eq!(app.active_session().get_input_words().len(), 1);
    app.on_del();
    app.on_del();
    app.on_del();
    assert_eq!(app.active_session().get_input_words()[0], "");
    assert_eq!(app.active_session().get_input_words().len(), 1);

    assert_eq!(
        app.active_session().get_input_words().len(),
        app.active_session().get_attempted_words().len()
    );

    assert_eq!(app.active_session().get_input_words(), vec![""]);
    assert_eq!(app.active_session().get_attempted_words(), vec!["The"]);
}

#[test]
fn test_2() {
    let mut app = passage_app();
    app.on_enter();
    for c in PASSAGE.chars() {
        if c == ' ' {
            app.on_space();
        } else {
            app.on_key(c);
        }
    }
    assert_eq!(app.active_session().state(), SessionState::Finished);
    assert_eq!(app.state(), AppState::Stats);

    assert_eq!(
        app.active_session().get_input_words(),
        vec!["The", "quick", "brown", "fox", "jumps", "over", "the", "lazy", "dog"]
    );
    assert_eq!(
        app.active_session().get_attempted_words(),
        vec!["The", "quick", "brown", "fox", "jumps", "over", "the", "lazy", "dog"]
    );

    let acc_difference = (accuracy(app.active_stats()) - 1.0).abs();
    assert!(acc_difference < 0.0001);
}

#[test]
fn test_3() {
    let mut session = Session::from("a b cd".to_string());

    assert_eq!(session.target_words().get_word_at_frozen(0), Some("a".to_string()));
    assert_eq!(session.target_words().get_word_at_frozen(1), Some("b".to_string()));
    assert_eq!(session.target_words().get_word_at_frozen(2), Some("cd".to_string()));
    let mut source = StaticWordGenerator::from("a b cd".to_string());
    assert_eq!(source.get_word_at(0), Some("a".to_string()));
    assert_eq!(source.get_word_at(1), Some("b".to_string()));
    assert_eq!(source.get_word_at(2), Some("cd".to_string()));

    session.on_char('a');
    session.on_space();
    session.on_char('x');
    session.on_space();
    session.on_char('c');
    session.on_char('d');

    assert_eq!(
        session.get_input_words(),
        vec!["a".to_string(), "x".to_string(), "cd".to_string()]
    );

    assert_eq!(session.state(), SessionState::Finished);

    let stats = SessionStats::from(&session);

    let target_acc: f32 = 4.0 / 5.0;

    let acc_difference = (accuracy(&stats) - target_acc).abs();
    assert!(
        acc_difference < 0.0001,
        "Accuracy was wrong ({} vs {})",
        accuracy(&stats),
        target_acc
    );

    assert_eq!(stats.char_corr, 4);
    assert_eq!(stats.char_total, 5);
    assert_eq!(stats.word_corr, 2);
    assert_eq!(stats.word_total, 3);
}

#[test]
fn app_starts_in_the_menu_with_empty_figures() {
    let app = App::default(Some(WORD_LIST)).unwrap();
    assert_eq!(app.state(), AppState::Menu);
    assert!(!app.quit());
    assert_eq!(app.active_stats().char_corr, 0);
    assert_eq!(app.active_stats().char_total, 0);
    assert_eq!(app.active_stats().correct_word_chars, 0);
    assert_eq!(app.active_stats().word_corr, 0);
    assert_eq!(app.active_stats().word_total, 0);
    assert_eq!(app.active_stats().duration, Duration::default());
    assert_eq!(app.active_session().state(), SessionState::Idle);
    assert_eq!(app.active_session().target_words().len(), Some(25));
}

#[test]
fn app_is_refused_without_a_word_list() {
    assert_eq!(App::default(None).err(), Some(LoadError::Unreadable));
    assert_eq!(App::default(Some("\n\n")).err(), Some(LoadError::Empty));
    assert_eq!(App::from_str("a b".to_string(), None).err(), Some(LoadError::Unreadable));
    assert_eq!(App::with_word_count(3, Some("")).err(), Some(LoadError::Empty));
}

#[test]
fn app_opens_a_test_of_the_asked_number_of_words() {
    let mut app = App::with_word_count(7, Some(WORD_LIST)).unwrap();
    app.on_enter();
    assert_eq!(app.state(), AppState::Typing);
    let session = app.active_session();
    assert_eq!(session.target_words().len(), Some(7));
    assert_eq!(session.get_input_words(), vec![""]);
    for i in 0..7 {
        let word = session.target_words().get_word_at_frozen(i).unwrap();
        assert!(["alpha", "beta", "gamma", "delta"].contains(&word.as_str()));
    }
    assert_eq!(session.target_words().get_word_at_frozen(7), None);
}

#[test]
fn app_default_opens_a_test_of_25_words() {
    let mut app = App::default(Some(WORD_LIST)).unwrap();
    app.on_enter();
    assert_eq!(app.state(), AppState::Typing);
    assert_eq!(app.active_session().target_words().len(), Some(25));
    assert!(app.active_session().target_words().get_word_at_frozen(24).is_some());
}

#[test]
fn app_ignores_typing_outside_a_test() {
    let mut app = passage_app();
    app.on_key('a');
    app.on_space();
    app.on_del();
    assert_eq!(app.state(), AppState::Menu);
    assert_eq!(app.active_session().state(), SessionState::Idle);
    assert_eq!(app.active_session().get_input_words(), vec![""]);
}

#[test]
fn app_enter_does_nothing_while_typing() {
    let mut app = passage_app();
    app.on_enter();
    app.on_key('T');
    app.on_enter();
    assert_eq!(app.state(), AppState::Typing);
    assert_eq!(app.active_session().get_input_words(), vec!["T"]);
}

#[test]
fn app_keeps_the_figures_until_the_next_test_finishes() {
    let mut app = App::from_str("ab".to_string(), Some(WORD_LIST)).unwrap();
    app.on_enter();
    app.on_key('a');
    app.on_key('b');
    assert_eq!(app.state(), AppState::Stats);
    assert_eq!(app.active_stats().char_corr, 2);
    assert_eq!(app.active_stats().char_total, 2);
    assert_eq!(app.active_stats().correct_word_chars, 2);
    assert_eq!(app.active_stats().word_corr, 1);
    assert_eq!(app.active_stats().word_total, 1);
    let first = *app.active_stats();

    app.on_enter();
    assert_eq!(app.state(), AppState::Menu);
    app.on_enter();
    assert_eq!(app.state(), AppState::Typing);
    assert_eq!(app.active_session().state(), SessionState::Idle);
    app.on_key('x');
    assert_eq!(app.active_stats().char_corr, first.char_corr);
    assert_eq!(app.active_stats().duration, first.duration);

    app.on_space();
    assert_eq!(app.state(), AppState::Stats);
    assert_eq!(app.active_stats().char_corr, 0);
    assert_eq!(app.active_stats().char_total, 2);
    assert_eq!(app.active_stats().word_corr, 0);
}

#[test]
fn app_escape_asks_to_quit() {
    let mut app = passage_app();
    app.on_esc();
    assert!(app.quit());
    assert_eq!(app.state(), AppState::Menu);
}

#[test]
fn keys_reach_their_handlers() {
    let mut app = App::from_str("a b".to_string(), Some(WORD_LIST)).unwrap();
    handle_key_event(Key::Other, &mut app);
    assert_eq!(app.state(), AppState::Menu);
    handle_key_event(Key::Enter, &mut app);
    assert_eq!(app.state(), AppState::Typing);
    handle_key_event(Key::Char('a'), &mut app);
    handle_key_event(Key::Char(' '), &mut app);
    assert_eq!(app.active_session().get_input_words(), vec!["a", ""]);
    handle_key_event(Key::Char('x'), &mut app);
    handle_key_event(Key::Char('y'), &mut app);
    handle_key_event(Key::Backspace, &mut app);
    assert_eq!(app.active_session().get_input_words(), vec!["a", "x"]);
    handle_key_event(Key::Delete, &mut app);
    assert_eq!(app.active_session().get_input_words(), vec!["a", ""]);
    handle_key_event(Key::Char('b'), &mut app);
    assert_eq!(app.state(), AppState::Stats);
    assert_eq!(app.active_stats().word_corr, 2);
    assert!(!app.quit());
    handle_key_event(Key::Esc, &mut app);
    assert!(app.quit());
}
