use termtype::session::{Session, SessionState};
use termtype::stats::SessionStats;

fn finished(passage: &str, keys: &str) -> Session {
    let mut session = Session::from(passage.to_string());
    for c in keys.chars() {
        if c == ' ' {
            session.on_space();
        } else {
            session.on_char(c);
        }
    }
    assert_eq!(session.state(), SessionState::Finished);
    session
}

#[test]
fn word_compare_counts_matching_positions() {
    assert_eq!(SessionStats::word_compare("cd", "cd"), (2, 2, true));
    assert_eq!(SessionStats::word_compare("x", "b"), (0, 1, false));
    assert_eq!(SessionStats::word_compare("abc", "abd"), (2, 3, false));
    assert_eq!(SessionStats::word_compare("abc", "xbc"), (2, 3, false));
}

#[test]
fn word_compare_takes_the_longer_length() {
    assert_eq!(SessionStats::word_compare("ab", "abcd"), (2, 4, false));
    assert_eq!(SessionStats::word_compare("abcd", "ab"), (2, 4, false));
    assert_eq!(SessionStats::word_compare("", "abc"), (0, 3, false));
    assert_eq!(SessionStats::word_compare("abc", ""), (0, 3, false));
    assert_eq!(SessionStats::word_compare("", ""), (0, 0, true));
}

#[test]
fn word_compare_does_not_depend_on_the_order() {
    let words = ["", "a", "ab", "abc", "abd", "xbc", "abcd", "h\u{e9}llo", "hello"];
    for a in words {
        for b in words {
            assert_eq!(SessionStats::word_compare(a, b), SessionStats::word_compare(b, a));
        }
    }
}

#[test]
fn word_compare_counts_characters_not_bytes() {
    assert_eq!(SessionStats::word_compare("h\u{e9}", "h\u{e9}"), (2, 2, true));
    assert_eq!(SessionStats::word_compare("h\u{e9}", "he"), (1, 2, false));
}

#[test]
fn all_words_right() {
    let session = finished("ab cd efg", "ab cd efg");
    let stats = SessionStats::from(&session);
    assert_eq!(stats.word_total, 3);
    assert_eq!(stats.word_corr, 3);
    assert_eq!(stats.char_corr, 9);
    assert_eq!(stats.char_total, 9);
    assert_eq!(stats.correct_word_chars, 9);
    assert_eq!(Some(stats.duration), session.get_final_duration_s());
}

#[test]
fn only_right_words_count_for_the_speed() {
    let session = finished("a b cd", "a x cd");
    let stats = SessionStats::from(&session);
    assert_eq!(stats.correct_word_chars, 4);
    assert_eq!(stats.char_corr, 4);
    assert_eq!(stats.char_total, 5);
}

#[test]
fn no_word_right_counts_no_space() {
    let session = finished("ab cd", "xb yd ");
    let stats = SessionStats::from(&session);
    assert_eq!(stats.word_total, 2);
    assert_eq!(stats.word_corr, 0);
    assert_eq!(stats.char_corr, 2);
    assert_eq!(stats.char_total, 4);
    assert_eq!(stats.correct_word_chars, 0);
}

#[test]
fn one_wrong_character_still_has_a_total() {
    let session = finished("a", "x ");
    let stats = SessionStats::from(&session);
    assert_eq!(stats.word_corr, 0);
    assert_eq!(stats.char_corr, 0);
    assert_eq!(stats.char_total, 1);
    assert_eq!(stats.correct_word_chars, 0);
}

#[test]
fn one_word_right_counts_no_space() {
    let session = finished("ab cd", "ab cx ");
    let stats = SessionStats::from(&session);
    assert_eq!(stats.word_corr, 1);
    assert_eq!(stats.char_corr, 3);
    assert_eq!(stats.char_total, 4);
    assert_eq!(stats.correct_word_chars, 2);
}

#[test]
fn overlong_and_short_words_count_their_longer_length() {
    let session = finished("ab cd", "abxx c ");
    let stats = SessionStats::from(&session);
    assert_eq!(stats.word_total, 2);
    assert_eq!(stats.word_corr, 0);
    assert_eq!(stats.char_corr, 3);
    assert_eq!(stats.char_total, 6);
}

#[test]
fn default_stats_are_zero() {
    let stats = SessionStats::default();
    assert_eq!(stats.char_corr, 0);
    assert_eq!(stats.char_total, 0);
    assert_eq!(stats.correct_word_chars, 0);
    assert_eq!(stats.word_corr, 0);
    assert_eq!(stats.word_total, 0);
    assert_eq!(stats.duration.as_nanos(), 0);
}
