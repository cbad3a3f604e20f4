use cedict_lookup::repository::{
    search_answer, word_from_columns, hanzi_statement, other_statement, HANZI_ORDER_EXACT, HANZI_ORDER_POPULAR, HANZI_PREFIX_FILTER,
    HANZI_SELECT, OTHER_MATCH_FILTER, OTHER_ORDER_POPULAR, OTHER_ORDER_RELEVANT, OTHER_SELECT,
};
use cedict_lookup::{escape_fts_query, DictionaryError, DictionaryRepo, DictionaryRepoTrait, Word};
use rusqlite::Connection;

fn test_repo() -> DictionaryRepo {
    let connection = Connection::open_in_memory().unwrap();
    connection
        .execute_batch(
            "
            CREATE TABLE cedict_dictionary (
                id INTEGER PRIMARY KEY,
                traditional_character TEXT NOT NULL,
                simplified_character TEXT NOT NULL,
                pinyin TEXT NOT NULL,
                definition TEXT NOT NULL,
                w_cd INTEGER
            );
            CREATE VIRTUAL TABLE cedict_dictionary_fts USING fts5(
                pinyin,
                definition,
                content='cedict_dictionary',
                content_rowid='id'
            );
            INSERT INTO cedict_dictionary
                (id, traditional_character, simplified_character, pinyin, definition, w_cd)
            VALUES (1, '你好', '你好', 'ni3 hao3', 'hello', 100);
            INSERT INTO cedict_dictionary_fts(cedict_dictionary_fts) VALUES ('rebuild');
            ",
        )
        .unwrap();

    DictionaryRepo::new(connection)
}

fn add_entries(repo: &DictionaryRepo, entries: &str) {
    repo.connection()
        .execute_batch(&format!(
            "INSERT INTO cedict_dictionary
         (id, traditional_character, simplified_character, pinyin, definition, w_cd)
         VALUES {entries};
         INSERT INTO cedict_dictionary_fts(cedict_dictionary_fts) VALUES ('rebuild');"
        ))
        .unwrap();
}

#[test]
fn exact_hanzi_precedes_popular_prefix_matches() {
    let repo = test_repo();
    add_entries(
        &repo,
        "(2, '書', '书', 'shu1', 'book', NULL),
                        (3, '書店', '书店', 'shu1 dian4', 'bookshop', 9000)",
    );
    for query in ["书", "書"] {
        let words = repo.search_by_hanzi(query).unwrap();
        assert_eq!(words[0].simplified, "书");
        assert_eq!(words[1].simplified, "书店");
    }
}

#[test]
fn direct_translation_precedes_incidental_mentions_even_without_frequency() {
    let repo = test_repo();
    add_entries(
        &repo,
        "(2, '回', '回', 'hui2', 'chapter of a classic book', 9000),
                        (3, '書', '书', 'shu1', 'letter/book/document', NULL)",
    );
    let words = repo.search_by_other("BOOK").unwrap();
    assert_eq!(words[0].simplified, "书");
    assert_eq!(words[1].simplified, "回");
}

#[test]
fn direct_greeting_ignores_terminal_punctuation() {
    let repo = test_repo();
    add_entries(
        &repo,
        "(2, '喂', '喂', 'wei2', 'hello (when answering the phone)', 9000),
                        (3, '您好', '您好', 'nin2 hao3', 'Hello!/Hi!', 200)",
    );
    assert_eq!(repo.search_by_other("hello").unwrap()[0].simplified, "您好");
}

#[test]
fn popularity_orders_equally_direct_translations() {
    let repo = test_repo();
    add_entries(
        &repo,
        "(2, '蘋', '苹', 'ping2', 'apple', 28),
                        (3, '蘋果', '苹果', 'ping2 guo3', 'apple/classifier note', 446)",
    );
    assert_eq!(repo.search_by_other("apple").unwrap()[0].simplified, "苹果");
}

#[test]
fn relevance_precedes_popularity_for_other_matches() {
    let repo = test_repo();
    add_entries(&repo, "(2, '甲', '甲', 'jia3', 'a book', NULL),
                        (3, '乙', '乙', 'yi3', 'an incidental mention of a book in a long explanatory note', 9000)");
    assert_eq!(repo.search_by_other("book").unwrap()[0].simplified, "甲");
}

#[test]
fn empty_search_keeps_popularity_order() {
    let repo = test_repo();
    add_entries(&repo, "(2, '書', '书', 'shu1', 'book', 9000)");
    assert_eq!(repo.search_by_hanzi("").unwrap()[0].simplified, "书");
    assert_eq!(repo.search_by_other("").unwrap()[0].simplified, "书");
}

#[test]
fn searches_hanzi_by_prefix() {
    let repo = test_repo();

    let words = repo.search_by_hanzi("你").unwrap();

    assert_eq!(words.len(), 1);
    assert_eq!(words[0].definition, "hello");
}

#[test]
fn searches_other_terms_without_allowing_fts_syntax_errors() {
    let repo = test_repo();

    let words = repo.search_by_other("\"hello").unwrap();

    assert_eq!(words.len(), 1);
    assert_eq!(words[0].traditional, "你好");
}

#[test]
fn reads_every_column_of_an_entry() {
    let repo = test_repo();
    let words = repo.search_by_hanzi("你好").unwrap();
    assert_eq!(words.len(), 1);
    assert_eq!(words[0].id, 1);
    assert_eq!(words[0].traditional, "你好");
    assert_eq!(words[0].simplified, "你好");
    assert_eq!(words[0].pinyin, "ni3 hao3");
    assert_eq!(words[0].definition, "hello");
}

#[test]
fn at_most_twenty_entries_are_returned() {
    let repo = test_repo();
    let rows: Vec<String> = (2..40)
        .map(|i| format!("({i}, '書{i}', '书{i}', 'shu1', 'book number {i}', {i})"))
        .collect();
    add_entries(&repo, &rows.join(", "));
    assert_eq!(repo.search_by_hanzi("书").unwrap().len(), 20);
    assert_eq!(repo.search_by_other("book").unwrap().len(), 20);
    let popular = repo.search_by_hanzi("").unwrap();
    assert_eq!(popular.len(), 20);
    assert_eq!(popular[0].id, 1);
    assert_eq!(popular[1].id, 39);
}

#[test]
fn a_missing_table_is_a_database_error() {
    let repo = DictionaryRepo::new(Connection::open_in_memory().unwrap());
    match repo.search_by_hanzi("书") {
        Err(DictionaryError::Database(message)) => assert!(message.contains("cedict_dictionary")),
        Ok(_) => panic!("a search without tables succeeded"),
    }
    let error = repo.search_by_other("book").unwrap_err();
    assert!(error.message().contains("no such table"));
}

#[test]
fn escapes_each_term_as_a_quoted_string() {
    assert_eq!(escape_fts_query("hello"), "\"hello\"");
    assert_eq!(escape_fts_query("  hello   world "), "\"hello\" \"world\"");
    assert_eq!(escape_fts_query("\"hello"), "\"\"\"hello\"");
    assert_eq!(escape_fts_query("a\"b\"c"), "\"a\"\"b\"\"c\"");
    assert_eq!(escape_fts_query("x\ty\nz"), "\"x\" \"y\" \"z\"");
    assert_eq!(escape_fts_query("AND OR NOT*"), "\"AND\" \"OR\" \"NOT*\"");
    assert_eq!(escape_fts_query(""), "");
    assert_eq!(escape_fts_query(" \u{3000} "), "");
}

#[test]
fn hanzi_statement_filters_by_prefix_only_with_a_query() {
    let empty = hanzi_statement("");
    assert_eq!(empty.sql, format!("{HANZI_SELECT}{HANZI_ORDER_POPULAR}"));
    assert!(empty.params.is_empty());
    let some = hanzi_statement("书");
    assert_eq!(some.sql, format!("{HANZI_SELECT}{HANZI_PREFIX_FILTER}{HANZI_ORDER_EXACT}"));
    assert_eq!(some.params, vec!["书".to_string()]);
}

#[test]
fn other_statement_passes_escaped_and_lowercased_query() {
    let empty = other_statement("");
    assert_eq!(empty.sql, format!("{OTHER_SELECT}{OTHER_ORDER_POPULAR}"));
    assert!(empty.params.is_empty());
    let some = other_statement("Hello \"World");
    assert_eq!(some.sql, format!("{OTHER_SELECT}{OTHER_MATCH_FILTER}{OTHER_ORDER_RELEVANT}"));
    assert_eq!(
        some.params,
        vec!["\"Hello\" \"\"\"World\"".to_string(), "hello \"world".to_string()]
    );
}

#[test]
fn quotes_anywhere_in_a_query_are_not_fts_syntax() {
    let repo = test_repo();
    for query in ["\"", "he\"llo", "hello \" world", "\"\"", "NEAR(hello", "hello*", "-hello", "a:b"] {
        assert!(repo.search_by_other(query).is_ok(), "query {query:?} failed");
    }
}

#[test]
fn search_answer_keeps_entries_and_reports_database_errors() {
    let word = Word {
        id: 7,
        traditional: "書".to_string(),
        simplified: "书".to_string(),
        pinyin: "shu1".to_string(),
        definition: "book".to_string(),
    };
    let words = search_answer(Ok(vec![word])).unwrap();
    assert_eq!(words.len(), 1);
    assert_eq!(words[0].id, 7);
    match search_answer(Err(rusqlite::Error::QueryReturnedNoRows)) {
        Err(DictionaryError::Database(message)) => assert_eq!(message, "Query returned no rows"),
        Ok(_) => panic!("an error became entries"),
    }
}

#[test]
fn word_from_columns_takes_the_first_failed_column() {
    let text = |s: &str| -> Result<String, rusqlite::Error> { Ok(s.to_string()) };
    let word = word_from_columns(Ok(3), text("書"), text("书"), text("shu1"), text("book")).unwrap();
    assert_eq!(word.id, 3);
    assert_eq!(word.traditional, "書");
    assert_eq!(word.simplified, "书");
    assert_eq!(word.pinyin, "shu1");
    assert_eq!(word.definition, "book");
    let error = word_from_columns(
        Ok(3),
        text("書"),
        Err(rusqlite::Error::InvalidColumnIndex(2)),
        text("shu1"),
        Err(rusqlite::Error::InvalidColumnIndex(4)),
    )
    .unwrap_err();
    assert_eq!(error, rusqlite::Error::InvalidColumnIndex(2));
    let error = word_from_columns(
        Err(rusqlite::Error::InvalidColumnIndex(0)),
        Err(rusqlite::Error::InvalidColumnIndex(1)),
        text("书"),
        text("shu1"),
        text("book"),
    )
    .unwrap_err();
    assert_eq!(error, rusqlite::Error::InvalidColumnIndex(0));
}

#[test]
fn searches_run_their_own_statements() {
    let repo = test_repo();
    add_entries(&repo, "(2, '書', '书', 'shu1', 'book', 9000), (3, '書店', '书店', 'shu1 dian4', 'bookshop', 10)");
    let direct = repo.run(&hanzi_statement("书")).unwrap();
    let searched = repo.search_by_hanzi("书").unwrap();
    assert_eq!(direct.iter().map(|w| w.id).collect::<Vec<_>>(), searched.iter().map(|w| w.id).collect::<Vec<_>>());
    let direct = repo.run(&other_statement("book")).unwrap();
    let searched = repo.search_by_other("book").unwrap();
    assert_eq!(direct.iter().map(|w| w.id).collect::<Vec<_>>(), searched.iter().map(|w| w.id).collect::<Vec<_>>());
}

#[test]
fn escaping_can_be_undone_term_by_term() {
    for query in ["hello", "  a\"b   c ", "\"\"\" x", "北京 大学", "x\ty"] {
        let escaped = escape_fts_query(query);
        let terms: Vec<&str> = query.split_whitespace().collect();
        let pieces: Vec<&str> = escaped.split(' ').collect();
        assert_eq!(pieces.len(), terms.len());
        for (piece, term) in pieces.iter().zip(terms.iter()) {
            assert!(piece.len() >= 2 && piece.starts_with('"') && piece.ends_with('"'));
            assert_eq!(piece[1..piece.len() - 1].replace("\"\"", "\""), *term);
        }
    }
    assert_eq!(escape_fts_query(" \t\n"), "");
}
