use std::sync::Mutex;

use cedict_lookup::{DictionaryCommand, DictionaryCommandTrait, DictionaryError, DictionaryRepoTrait, Word};

struct RecordingRepo {
    route: Mutex<Option<&'static str>>,
    query: Mutex<Option<String>>,
}

impl RecordingRepo {
    fn new() -> Self {
        RecordingRepo { route: Mutex::new(None), query: Mutex::new(None) }
    }
}

impl DictionaryRepoTrait for RecordingRepo {
    fn search_by_hanzi(&self, query: &str) -> Result<Vec<Word>, DictionaryError> {
        *self.route.lock().unwrap() = Some("hanzi");
        *self.query.lock().unwrap() = Some(query.to_string());
        Ok(Vec::new())
    }

    fn search_by_other(&self, query: &str) -> Result<Vec<Word>, DictionaryError> {
        *self.route.lock().unwrap() = Some("other");
        *self.query.lock().unwrap() = Some(query.to_string());
        Ok(Vec::new())
    }
}

#[test]
fn routes_hanzi_queries_to_hanzi_search() {
    let repo = RecordingRepo::new();
    let command = DictionaryCommand::new(repo);

    command.search("  你好  ").unwrap();

    assert_eq!(*command.repo().route.lock().unwrap(), Some("hanzi"));
}

#[test]
fn routes_non_hanzi_queries_to_full_text_search() {
    let repo = RecordingRepo::new();
    let command = DictionaryCommand::new(repo);

    command.search(" hello ").unwrap();

    assert_eq!(*command.repo().route.lock().unwrap(), Some("other"));
}

#[test]
fn treats_empty_queries_as_hanzi_searches() {
    let repo = RecordingRepo::new();
    let command = DictionaryCommand::new(repo);

    command.search("   ").unwrap();

    assert_eq!(*command.repo().route.lock().unwrap(), Some("hanzi"));
}

#[test]
fn hands_the_trimmed_query_to_the_repository() {
    let command = DictionaryCommand::new(RecordingRepo::new());
    command.search("\t hello world \n").unwrap();
    assert_eq!(command.repo().query.lock().unwrap().as_deref(), Some("hello world"));
    command.search("\u{3000}你好\u{3000}").unwrap();
    assert_eq!(command.repo().query.lock().unwrap().as_deref(), Some("你好"));
    assert_eq!(*command.repo().route.lock().unwrap(), Some("hanzi"));
}

#[test]
fn mixed_queries_with_a_hanzi_go_to_hanzi_search() {
    let command = DictionaryCommand::new(RecordingRepo::new());
    command.search("ni 好").unwrap();
    assert_eq!(*command.repo().route.lock().unwrap(), Some("hanzi"));
    command.search("").unwrap();
    assert_eq!(*command.repo().route.lock().unwrap(), Some("hanzi"));
    command.search("ni3 hao3").unwrap();
    assert_eq!(*command.repo().route.lock().unwrap(), Some("other"));
}

#[test]
fn contains_hanzi_covers_the_three_ranges() {
    type Command = DictionaryCommand<RecordingRepo>;
    assert!(Command::contains_hanzi("\u{3400}"));
    assert!(Command::contains_hanzi("\u{4DBF}"));
    assert!(Command::contains_hanzi("abc\u{4E00}"));
    assert!(Command::contains_hanzi("\u{9FFF}"));
    assert!(Command::contains_hanzi("\u{20000}"));
    assert!(Command::contains_hanzi("\u{2FA1F}"));
    assert!(!Command::contains_hanzi("\u{33FF}"));
    assert!(!Command::contains_hanzi("\u{4DC0}"));
    assert!(!Command::contains_hanzi("\u{A000}"));
    assert!(!Command::contains_hanzi("\u{2FA20}"));
    assert!(!Command::contains_hanzi("hello"));
    assert!(!Command::contains_hanzi(""));
    assert!(!Command::contains_hanzi("。，"));
}

#[test]
fn hanzi_detection_ignores_padding_and_respects_concatenation() {
    type Command = DictionaryCommand<RecordingRepo>;
    for (a, b) in [("ab", "你"), ("", ""), ("x", "y"), ("書", "")] {
        assert_eq!(
            Command::contains_hanzi(&format!("{a}{b}")),
            Command::contains_hanzi(a) || Command::contains_hanzi(b)
        );
    }
    for s in [" 你 ", "\u{3000}abc\u{3000}", "\t"] {
        assert_eq!(Command::contains_hanzi(s), Command::contains_hanzi(s.trim()));
    }
}
