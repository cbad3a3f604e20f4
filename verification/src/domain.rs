//! The dictionary's entries, its error type, and the two search interfaces.

use vstd::prelude::*;

verus! {

/// One dictionary entry.
#[derive(Debug, Clone)]
pub struct Word {
    pub id: i32,
    pub traditional: String,
    pub simplified: String,
    pub pinyin: String,
    pub definition: String,
}

/// Why a search failed.
#[derive(Debug, Clone)]
pub enum DictionaryError {
    /// The database refused or failed the statement; the text is its message.
    Database(String),
}

impl DictionaryError {
    /// The error as text, for display to the user.
    pub fn message(&self) -> (text: String)
        ensures
            text@ == (match self {
                DictionaryError::Database(m) => m@,
            }),
    {
        match self {
            DictionaryError::Database(m) => m.clone(),
        }
    }
}

/// A store of dictionary entries that can be searched in two ways.
pub trait DictionaryRepoTrait {
    /// What the store may answer when `search_by_hanzi` is asked for `query`;
    /// a store that says nothing of its answers keeps the default.
    open spec fn hanzi_outcome(
        &self,
        query: Seq<char>,
        result: Result<Vec<Word>, DictionaryError>,
    ) -> bool {
        true
    }

    /// What the store may answer when `search_by_other` is asked for `query`;
    /// a store that says nothing of its answers keeps the default.
    open spec fn other_outcome(
        &self,
        query: Seq<char>,
        result: Result<Vec<Word>, DictionaryError>,
    ) -> bool {
        true
    }

    /// Entries whose traditional or simplified form starts with `query`.
    fn search_by_hanzi(&self, query: &str) -> (result: Result<Vec<Word>, DictionaryError>)
        ensures
            self.hanzi_outcome(query@, result),
    ;

    /// Entries whose pinyin or definition matches the terms of `query`.
    fn search_by_other(&self, query: &str) -> (result: Result<Vec<Word>, DictionaryError>)
        ensures
            self.other_outcome(query@, result),
    ;
}

/// A search over the dictionary from free user input.
pub trait DictionaryCommandTrait {
    /// Searches for the entries that match `query`.
    fn search(&self, query: &str) -> Result<Vec<Word>, DictionaryError>;
}

} // verus!
