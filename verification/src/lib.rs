//! Chinese-English dictionary lookup: query routing, SQL statements for the
//! dictionary database, full-text query escaping, and the clipboard watcher's
//! decisions.

pub mod clipboard;
pub mod command;
pub mod domain;
pub mod monitor;
pub mod repository;
pub mod text;

pub use command::DictionaryCommand;
pub use domain::{DictionaryCommandTrait, DictionaryError, DictionaryRepoTrait, Word};
pub use repository::{escape_fts_query, DictionaryRepo};
