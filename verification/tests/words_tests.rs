use termtype::text::{keep_nonempty, split};
use termtype::words::{LoadError, RandomWordGenerator, StaticWordGenerator, WordGenerator};

fn strings(words: &[&str]) -> Vec<String> {
    words.iter().map(|w| w.to_string()).collect()
}

#[test]
fn split_cuts_at_every_separator() {
    assert_eq!(split("a b cd", ' '), vec!["a", "b", "cd"]);
    assert_eq!(split("abc", ' '), vec!["abc"]);
    assert_eq!(split("", ' '), vec![""]);
    assert_eq!(split(" ", ' '), vec!["", ""]);
    assert_eq!(split("a  b", ' '), vec!["a", "", "b"]);
    assert_eq!(split(" a ", ' '), vec!["", "a", ""]);
    assert_eq!(split("one\ntwo\n", '\n'), vec!["one", "two", ""]);
}

#[test]
fn split_agrees_with_std() {
    let texts = ["", " ", "a", "a b", " a b ", "a   b", "the quick  brown fox ", "\u{e9}t\u{e9} ici"];
    for text in texts {
        let expected: Vec<String> = text.split(' ').map(|s| s.to_string()).collect();
        assert_eq!(split(text, ' '), expected);
        assert_eq!(split(text, ' ').join(" "), text);
    }
}

#[test]
fn keep_nonempty_drops_the_empty_words() {
    assert_eq!(keep_nonempty(strings(&["a", "", "b", "", ""])), vec!["a", "b"]);
    assert_eq!(keep_nonempty(strings(&["", ""])), Vec::<String>::new());
    assert_eq!(keep_nonempty(Vec::new()), Vec::<String>::new());
    assert_eq!(keep_nonempty(strings(&["x"])), vec!["x"]);
}

#[test]
fn fixed_source_round_trip() {
    let source = StaticWordGenerator::from("a b cd".to_string());
    assert_eq!(source.get_word_at_frozen(0), Some("a".to_string()));
    assert_eq!(source.get_word_at_frozen(1), Some("b".to_string()));
    assert_eq!(source.get_word_at_frozen(2), Some("cd".to_string()));
    assert_eq!(source.get_word_at_frozen(3), None);
    assert_eq!(source.len(), Some(3));
}

#[test]
fn fixed_source_does_not_grow() {
    let mut source = StaticWordGenerator::from("a b cd".to_string());
    assert_eq!(source.get_word_at(3), None);
    assert_eq!(source.get_word_at(100), None);
    assert_eq!(source.get_word_at(2), Some("cd".to_string()));
    assert_eq!(source.get_word_at_frozen(3), None);
    assert_eq!(source.len(), Some(3));
}

#[test]
fn fixed_source_of_the_empty_passage_has_one_empty_word() {
    let source = StaticWordGenerator::from(String::new());
    assert_eq!(source.len(), Some(1));
    assert_eq!(source.get_word_at_frozen(0), Some(String::new()));
}

#[test]
fn word_list_is_its_nonempty_lines() {
    assert_eq!(
        RandomWordGenerator::load_word_list(Some("one\ntwo\n\nthree\n")),
        Ok(strings(&["one", "two", "three"]))
    );
    assert_eq!(RandomWordGenerator::load_word_list(Some("solo")), Ok(strings(&["solo"])));
    assert_eq!(RandomWordGenerator::load_word_list(Some("a b\nc")), Ok(strings(&["a b", "c"])));
}

#[test]
fn word_list_without_words_is_refused() {
    assert_eq!(RandomWordGenerator::load_word_list(None), Err(LoadError::Unreadable));
    assert_eq!(RandomWordGenerator::load_word_list(Some("")), Err(LoadError::Empty));
    assert_eq!(RandomWordGenerator::load_word_list(Some("\n\n\n")), Err(LoadError::Empty));
    assert!(matches!(RandomWordGenerator::with_size(5, None), Err(LoadError::Unreadable)));
    assert!(matches!(RandomWordGenerator::with_size(5, Some("\n")), Err(LoadError::Empty)));
}

#[test]
fn random_source_draws_from_the_pool() {
    let pool = ["one", "two", "three"];
    let source = match RandomWordGenerator::with_size(40, Some("one\ntwo\nthree\n")) {
        Ok(source) => source,
        Err(e) => panic!("no pool: {:?}", e),
    };
    assert_eq!(source.len(), Some(40));
    for i in 0..40 {
        let word = source.get_word_at_frozen(i).unwrap();
        assert!(pool.contains(&word.as_str()));
    }
    assert_eq!(source.get_word_at_frozen(40), None);
}

#[test]
fn random_source_draws_a_word_and_not_the_pool() {
    let source = match RandomWordGenerator::with_size(1, Some("only\n")) {
        Ok(source) => source,
        Err(e) => panic!("no pool: {:?}", e),
    };
    assert_eq!(source.get_word_at_frozen(0), Some("only".to_string()));
}

#[test]
fn random_source_grows_on_demand_and_keeps_its_words() {
    let mut source = match RandomWordGenerator::with_size(2, Some("one\ntwo\nthree\n")) {
        Ok(source) => source,
        Err(e) => panic!("no pool: {:?}", e),
    };
    let first = source.get_word_at_frozen(0);
    let second = source.get_word_at_frozen(1);
    assert_eq!(source.get_word_at_frozen(2), None);

    let sixth = source.get_word_at(5);
    assert!(sixth.is_some());
    assert_eq!(source.get_word_at_frozen(5), sixth);
    assert_eq!(source.get_word_at_frozen(6), None);
    assert_eq!(source.get_word_at_frozen(0), first);
    assert_eq!(source.get_word_at_frozen(1), second);
    assert_eq!(source.get_word_at(0), first);
    assert_eq!(source.get_word_at(5), sixth);
    assert_eq!(source.get_word_at_frozen(6), None);
    assert_eq!(source.len(), Some(2));
}

#[test]
fn random_source_of_no_words_is_empty_until_asked() {
    let mut source = match RandomWordGenerator::with_size(0, Some("one\n")) {
        Ok(source) => source,
        Err(e) => panic!("no pool: {:?}", e),
    };
    assert_eq!(source.len(), Some(0));
    assert_eq!(source.get_word_at_frozen(0), None);
    assert_eq!(source.get_word_at(0), Some("one".to_string()));
}
