//! The SQLite-backed dictionary repository: the statements it runs, the
//! escaping of full-text queries, and the calls into `rusqlite`.

use vstd::prelude::*;

use crate::domain::{DictionaryError, DictionaryRepoTrait, Word};
use crate::text::{
    chars_of, char_is_white_space, push_char, is_white_space, lemma_token_len_exact,
    split_whitespace_spec, join_spec, lowercase_of, to_lowercase, views_of,
    lemma_split_terms_are_words,
};

verus! {

/// `t` with every `"` doubled, as an FTS5 string literal needs it.
pub open spec fn double_quotes(t: Seq<char>) -> Seq<char>
    decreases t.len(),
{
    if t.len() == 0 {
        seq![]
    } else {
        double_quotes(t.drop_last()) + if t.last() == '"' {
            seq!['"', '"']
        } else {
            seq![t.last()]
        }
    }
}

/// `t` as an FTS5 string literal: in double quotes, inner quotes doubled.
pub open spec fn quote_term(t: Seq<char>) -> Seq<char> {
    seq!['"'] + double_quotes(t) + seq!['"']
}

/// Each term quoted.
pub open spec fn quoted_terms(terms: Seq<Seq<char>>) -> Seq<Seq<char>> {
    terms.map_values(|t: Seq<char>| quote_term(t))
}

/// The full-text query for `q`: each whitespace-separated term of `q` as a
/// quoted FTS5 string, the terms separated by one space.
pub open spec fn fts_escape_spec(q: Seq<char>) -> Seq<char> {
    join_spec(quoted_terms(split_whitespace_spec(q)), seq![' '])
}

/// Turns free text into an FTS5 query that matches its terms literally, so
/// that no character of the text is read as FTS5 syntax.
pub fn escape_fts_query(query: &str) -> (escaped: String)
    ensures
        escaped@ == fts_escape_spec(query@),
{
    let chars = chars_of(query);
    let n = chars.len();
    let mut out = String::new();
    let ghost mut done: Seq<Seq<char>> = seq![];
    let mut any_term = false;
    let mut i: usize = 0;
    assert(query@.skip(0) =~= query@);
    while i < n
        invariant
            n == chars@.len(),
            chars@ == query@,
            i <= n,
            any_term == (done.len() > 0),
            split_whitespace_spec(query@) == done + split_whitespace_spec(query@.skip(i as int)),
            out@ == join_spec(quoted_terms(done), seq![' ']),
        decreases n - i,
    {
        let ghost rest = query@.skip(i as int);
        assert(rest[0] == query@[i as int]);
        if char_is_white_space(chars[i]) {
            assert(rest.drop_first() =~= query@.skip(i + 1));
            i = i + 1;
        } else {
            let ghost joined = out@;
            if any_term {
                push_char(&mut out, ' ');
            }
            push_char(&mut out, '"');
            let ghost before = out@;
            let mut j: usize = i;
            assert(query@.subrange(i as int, i as int) =~= Seq::<char>::empty());
            while j < n && !char_is_white_space(chars[j])
                invariant
                    n == chars@.len(),
                    chars@ == query@,
                    i <= j <= n,
                    forall|k: int| i <= k < j ==> !is_white_space(#[trigger] query@[k]),
                    out@ == before + double_quotes(query@.subrange(i as int, j as int)),
                decreases n - j,
            {
                let c = chars[j];
                assert(query@.subrange(i as int, j + 1).drop_last() =~= query@.subrange(
                    i as int,
                    j as int,
                ));
                if c == '"' {
                    push_char(&mut out, '"');
                    push_char(&mut out, '"');
                } else {
                    push_char(&mut out, c);
                }
                j = j + 1;
            }
            push_char(&mut out, '"');
            proof {
                let m = j - i;
                assert forall|k: int| 0 <= k < m implies !is_white_space(#[trigger] rest[k]) by {
                    assert(rest[k] == query@[i + k]);
                }
                if j < n {
                    assert(rest[m] == query@[j as int]);
                }
                lemma_token_len_exact(rest, m);
                let t = query@.subrange(i as int, j as int);
                assert(rest.take(m) =~= t);
                assert(rest.skip(m) =~= query@.skip(j as int));
                let nd = done.push(t);
                assert(quoted_terms(nd).drop_last() =~= quoted_terms(done));
                assert(out@ =~= joined + (if done.len() > 0 { seq![' '] } else { seq![] })
                    + quote_term(t));
                assert(nd =~= done + seq![t]);
                assert(done + split_whitespace_spec(rest) =~= nd + split_whitespace_spec(
                    query@.skip(j as int),
                ));
                done = nd;
            }
            any_term = true;
            i = j;
        }
    }
    assert(query@.skip(n as int) =~= Seq::<char>::empty());
    assert(done + Seq::<Seq<char>>::empty() =~= done);
    out
}

/// The columns of an entry, read from the entries table.
pub const HANZI_SELECT: &'static str = "SELECT\n                id,\n                traditional_character,\n                simplified_character,\n                pinyin,\n                definition\n             FROM cedict_dictionary";

/// Entries whose traditional or simplified form starts with the first parameter.
pub const HANZI_PREFIX_FILTER: &'static str = " WHERE traditional_character LIKE $1 || '%' OR simplified_character LIKE $1 || '%'";

/// The twenty most frequent entries, ties by id.
pub const HANZI_ORDER_POPULAR: &'static str = " ORDER BY w_cd DESC, id ASC LIMIT 20";

/// Exact matches of either form first, then by frequency and id; twenty at most.
pub const HANZI_ORDER_EXACT: &'static str = " ORDER BY (traditional_character = $1 OR simplified_character = $1) DESC,\n                  w_cd DESC, id ASC LIMIT 20";

/// The columns of an entry, read through the full-text index.
pub const OTHER_SELECT: &'static str = "SELECT\n            cd.id,\n            cd.traditional_character,\n            cd.simplified_character,\n            cd.pinyin,\n            cd.definition,\n            cd.w_cd\n            FROM cedict_dictionary_fts\n            JOIN cedict_dictionary cd\n            ON cd.id = cedict_dictionary_fts.rowid\n        ";

/// Entries that the full-text index matches with the first parameter.
pub const OTHER_MATCH_FILTER: &'static str = " WHERE cedict_dictionary_fts MATCH $1";

/// The twenty most frequent entries, ties by id.
pub const OTHER_ORDER_POPULAR: &'static str = " ORDER BY cd.w_cd DESC, cd.id ASC LIMIT 20";

/// A complete slash-delimited translation equal to the second parameter beats an incidental mention; popularity orders direct translations, full-text relevance orders the other matches; twenty at most.
pub const OTHER_ORDER_RELEVANT: &'static str = " ORDER BY\n                  (instr('/' || lower(replace(replace(cd.definition, '!', ''), '?', '')) || '/', '/' || $2 || '/') > 0) DESC,\n                  CASE WHEN instr('/' || lower(replace(replace(cd.definition, '!', ''), '?', '')) || '/', '/' || $2 || '/') > 0\n                       THEN coalesce(cd.w_cd, 0) END DESC,\n                  rank ASC, cd.w_cd DESC, cd.id ASC LIMIT 20";


/// Whether every `"` in `s` is one of a doubled pair `""`, reading from the
/// end, as inside an FTS5 string.
pub open spec fn quotes_paired(s: Seq<char>) -> bool
    decreases s.len(),
{
    if s.len() == 0 {
        true
    } else if s.last() == '"' {
        s.len() >= 2 && s[s.len() - 2] == '"' && quotes_paired(s.drop_last().drop_last())
    } else {
        quotes_paired(s.drop_last())
    }
}

/// Whether `s` is one FTS5 string: enclosed in `"`, with every inner `"`
/// doubled.
pub open spec fn is_fts_string(s: Seq<char>) -> bool {
    &&& s.len() >= 2
    &&& s[0] == '"'
    &&& s.last() == '"'
    &&& quotes_paired(s.subrange(1, s.len() - 1))
}

/// Doubling the quotes of a text pairs every quote.
pub proof fn lemma_double_quotes_paired(t: Seq<char>)
    ensures
        quotes_paired(double_quotes(t)),
    decreases t.len(),
{
    if t.len() > 0 {
        lemma_double_quotes_paired(t.drop_last());
        let d = double_quotes(t);
        let prev = double_quotes(t.drop_last());
        if t.last() == '"' {
            assert(d.drop_last().drop_last() =~= prev);
        } else {
            assert(d.drop_last() =~= prev);
        }
    }
}

/// Escaping makes every term of the query one FTS5 string: the terms are the
/// whitespace-separated runs of the query, none empty and none holding
/// whitespace, and each is quoted with its inner quotes doubled. So no
/// character of the user's text is read as FTS5 syntax.
pub proof fn lemma_escaped_terms_are_fts_strings(q: Seq<char>)
    ensures
        fts_escape_spec(q) == join_spec(quoted_terms(split_whitespace_spec(q)), seq![' ']),
        forall|i: int| #![trigger split_whitespace_spec(q)[i]]
            0 <= i < split_whitespace_spec(q).len() ==> {
                let term = split_whitespace_spec(q)[i];
                &&& term.len() > 0
                &&& forall|k: int| 0 <= k < term.len() ==> !is_white_space(#[trigger] term[k])
                &&& is_fts_string(quoted_terms(split_whitespace_spec(q))[i])
            },
{
    lemma_split_terms_are_words(q);
    let words = split_whitespace_spec(q);
    assert forall|i: int| #![trigger words[i]] 0 <= i < words.len() implies is_fts_string(
        quoted_terms(words)[i],
    ) by {
        let term = words[i];
        let quoted = quote_term(term);
        assert(quoted_terms(words)[i] == quoted);
        lemma_double_quotes_paired(term);
        assert(quoted.subrange(1, quoted.len() - 1) =~= double_quotes(term));
    }
}

/// The pieces of `s` between the occurrences of `c`, as `str::split(c)`
/// yields them (one empty piece for an empty text).
pub open spec fn split_char_spec(s: Seq<char>, c: char) -> Seq<Seq<char>>
    decreases s.len(),
{
    if s.len() == 0 {
        seq![Seq::<char>::empty()]
    } else if s.last() == c {
        split_char_spec(s.drop_last(), c).push(Seq::<char>::empty())
    } else {
        let pieces = split_char_spec(s.drop_last(), c);
        pieces.drop_last().push(pieces.last().push(s.last()))
    }
}

proof fn lemma_split_char_not_empty(s: Seq<char>, c: char)
    ensures
        split_char_spec(s, c).len() >= 1,
    decreases s.len(),
{
    if s.len() > 0 {
        lemma_split_char_not_empty(s.drop_last(), c);
    }
}

proof fn lemma_split_char_extend(x: Seq<char>, y: Seq<char>, c: char)
    requires
        !y.contains(c),
    ensures
        split_char_spec(x + y, c) == split_char_spec(x, c).drop_last().push(
            split_char_spec(x, c).last() + y,
        ),
    decreases y.len(),
{
    lemma_split_char_not_empty(x, c);
    let sx = split_char_spec(x, c);
    if y.len() == 0 {
        assert(x + y =~= x);
        assert(sx.last() + y =~= sx.last());
        assert(sx.drop_last().push(sx.last()) =~= sx);
    } else {
        let y0 = y.drop_last();
        assert(!y0.contains(c)) by {
            if y0.contains(c) {
                let k = choose|k: int| 0 <= k < y0.len() && y0[k] == c;
                assert(y[k] == c);
            }
        }
        assert(y.last() != c) by {
            assert(y[y.len() - 1] == y.last());
        }
        lemma_split_char_extend(x, y0, c);
        assert((x + y).drop_last() =~= x + y0);
        assert((x + y).last() == y.last());
        assert((sx.last() + y0).push(y.last()) =~= sx.last() + y);
        assert(sx.drop_last().push(sx.last() + y0).drop_last() =~= sx.drop_last());
    }
}

/// Splitting a join on its one-character separator gives back the parts,
/// when no part holds the separator.
pub proof fn lemma_split_char_of_join(parts: Seq<Seq<char>>, c: char)
    requires
        parts.len() > 0,
        forall|i: int| 0 <= i < parts.len() ==> !(#[trigger] parts[i]).contains(c),
    ensures
        split_char_spec(join_spec(parts, seq![c]), c) == parts,
    decreases parts.len(),
{
    let empty = Seq::<char>::empty();
    if parts.len() == 1 {
        lemma_split_char_extend(empty, parts[0], c);
        assert(empty + parts[0] =~= parts[0]);
        assert(split_char_spec(empty, c) =~= seq![empty]);
        assert(empty + parts[0] =~= parts[0]);
        assert(seq![empty].drop_last().push(parts[0]) =~= parts);
    } else {
        let init = parts.drop_last();
        assert forall|i: int| 0 <= i < init.len() implies !(#[trigger] init[i]).contains(c) by {
            assert(init[i] == parts[i]);
        }
        lemma_split_char_of_join(init, c);
        let x = join_spec(init, seq![c]) + seq![c];
        assert(parts.last() == parts[parts.len() - 1]);
        lemma_split_char_extend(x, parts.last(), c);
        assert(x.drop_last() =~= join_spec(init, seq![c]));
        assert(x.last() == c);
        assert(split_char_spec(x, c) == init.push(empty));
        assert(init.push(empty).drop_last() =~= init);
        assert(empty + parts.last() =~= parts.last());
        assert(init.push(parts.last()) =~= parts);
    }
}

/// `s` with every doubled quote `""` read as one quote, from the end.
pub open spec fn undouble_quotes(s: Seq<char>) -> Seq<char>
    decreases s.len(),
{
    if s.len() == 0 {
        seq![]
    } else if s.len() >= 2 && s.last() == '"' {
        undouble_quotes(s.drop_last().drop_last()).push('"')
    } else {
        undouble_quotes(s.drop_last()).push(s.last())
    }
}

/// The text of an FTS5 string: its quotes stripped, doubled quotes undoubled.
pub open spec fn unquote_term(s: Seq<char>) -> Seq<char> {
    undouble_quotes(s.subrange(1, s.len() - 1))
}

/// Undoubling the quotes undoes doubling them.
pub proof fn lemma_undouble_double_quotes(t: Seq<char>)
    ensures
        undouble_quotes(double_quotes(t)) == t,
    decreases t.len(),
{
    if t.len() > 0 {
        let prev = t.drop_last();
        lemma_undouble_double_quotes(prev);
        let d = double_quotes(t);
        if t.last() == '"' {
            assert(d.drop_last().drop_last() =~= double_quotes(prev));
        } else {
            assert(d.drop_last() =~= double_quotes(prev));
        }
        assert(prev.push(t.last()) =~= t);
    }
}

proof fn lemma_double_quotes_keeps_out(t: Seq<char>, c: char)
    requires
        c != '"',
        !t.contains(c),
    ensures
        !double_quotes(t).contains(c),
    decreases t.len(),
{
    if t.len() > 0 {
        let prev = t.drop_last();
        assert(!prev.contains(c)) by {
            if prev.contains(c) {
                let k = choose|k: int| 0 <= k < prev.len() && prev[k] == c;
                assert(t[k] == c);
            }
        }
        assert(t.last() != c) by {
            assert(t[t.len() - 1] == t.last());
        }
        lemma_double_quotes_keeps_out(prev, c);
        let d = double_quotes(t);
        if d.contains(c) {
            let k = choose|k: int| 0 <= k < d.len() && d[k] == c;
            if k < double_quotes(prev).len() {
                assert(double_quotes(prev)[k] == c);
            }
        }
    }
}

/// Escaping can be undone: without terms the escaped query is empty;
/// otherwise splitting it at each space gives one piece per term, and each
/// piece, unquoted, is its term.
pub proof fn lemma_escape_round_trip(q: Seq<char>)
    ensures
        ({
            let terms = split_whitespace_spec(q);
            &&& terms.len() == 0 ==> fts_escape_spec(q).len() == 0
            &&& terms.len() > 0 ==> split_char_spec(fts_escape_spec(q), ' ') == quoted_terms(terms)
            &&& forall|i: int| #![trigger terms[i]]
                0 <= i < terms.len() ==> unquote_term(quoted_terms(terms)[i]) == terms[i]
        }),
{
    let terms = split_whitespace_spec(q);
    let quoted = quoted_terms(terms);
    lemma_split_terms_are_words(q);
    assert forall|i: int| #![trigger terms[i]] 0 <= i < terms.len() implies {
        &&& unquote_term(quoted[i]) == terms[i]
        &&& !quoted[i].contains(' ')
    } by {
        let t = terms[i];
        let d = double_quotes(t);
        assert(quoted[i] == quote_term(t));
        assert(quote_term(t).subrange(1, quote_term(t).len() - 1) =~= d);
        lemma_undouble_double_quotes(t);
        assert(!t.contains(' ')) by {
            if t.contains(' ') {
                let k = choose|k: int| 0 <= k < t.len() && t[k] == ' ';
                assert(!is_white_space(t[k]));
            }
        }
        lemma_double_quotes_keeps_out(t, ' ');
        if quote_term(t).contains(' ') {
            let k = choose|k: int| 0 <= k < quote_term(t).len() && quote_term(t)[k] == ' ';
            if 1 <= k < quote_term(t).len() - 1 {
                assert(d[k - 1] == ' ');
            }
        }
    }
    if terms.len() > 0 {
        assert forall|i: int| 0 <= i < quoted.len() implies !(#[trigger] quoted[i]).contains(' ') by {
            assert(terms[i] == terms[i]);
        }
        lemma_split_char_of_join(quoted, ' ');
    }
}

/// The SQL text of the character search; `empty` tells whether the query is
/// empty.
pub open spec fn hanzi_sql(empty: bool) -> Seq<char> {
    if empty {
        HANZI_SELECT@ + HANZI_ORDER_POPULAR@
    } else {
        HANZI_SELECT@ + HANZI_PREFIX_FILTER@ + HANZI_ORDER_EXACT@
    }
}

/// The SQL text of the full-text search; `empty` tells whether the query is
/// empty.
pub open spec fn other_sql(empty: bool) -> Seq<char> {
    if empty {
        OTHER_SELECT@ + OTHER_ORDER_POPULAR@
    } else {
        OTHER_SELECT@ + OTHER_MATCH_FILTER@ + OTHER_ORDER_RELEVANT@
    }
}

/// A statement for the database: its SQL text and its positional parameters.
pub struct SqlStatement {
    pub sql: String,
    pub params: Vec<String>,
}

/// The statement of the character search for `query`: without a query the
/// most frequent entries; with one, the entries whose traditional or
/// simplified form starts with it, exact matches first.
pub fn hanzi_statement(query: &str) -> (statement: SqlStatement)
    ensures
        statement.sql@ == hanzi_sql(query@.len() == 0),
        views_of(statement.params@) == (if query@.len() == 0 {
            Seq::<Seq<char>>::empty()
        } else {
            seq![query@]
        }),
{
    let mut sql = String::new();
    sql.append(HANZI_SELECT);
    let mut params: Vec<String> = Vec::new();
    if query.is_empty() {
        sql.append(HANZI_ORDER_POPULAR);
    } else {
        sql.append(HANZI_PREFIX_FILTER);
        sql.append(HANZI_ORDER_EXACT);
        params.push(query.to_owned());
        assert(views_of(params@) =~= seq![query@]);
    }
    assert(sql@ =~= hanzi_sql(query@.len() == 0));
    SqlStatement { sql, params }
}

/// The statement of the full-text search for `query`: without a query the
/// most frequent entries; with one, the entries that the escaped terms of the
/// query match, exact slash-delimited translations of the lowercased query
/// first.
pub fn other_statement(query: &str) -> (statement: SqlStatement)
    ensures
        statement.sql@ == other_sql(query@.len() == 0),
        views_of(statement.params@) == (if query@.len() == 0 {
            Seq::<Seq<char>>::empty()
        } else {
            seq![fts_escape_spec(query@), lowercase_of(query@)]
        }),
{
    let mut sql = String::new();
    sql.append(OTHER_SELECT);
    let mut params: Vec<String> = Vec::new();
    if query.is_empty() {
        sql.append(OTHER_ORDER_POPULAR);
    } else {
        sql.append(OTHER_MATCH_FILTER);
        sql.append(OTHER_ORDER_RELEVANT);
        params.push(escape_fts_query(query));
        params.push(to_lowercase(query));
        assert(views_of(params@) =~= seq![fts_escape_spec(query@), lowercase_of(query@)]);
    }
    assert(sql@ =~= other_sql(query@.len() == 0));
    SqlStatement { sql, params }
}

/// `rusqlite::Connection`, an open SQLite database.
#[verifier::external_type_specification]
#[verifier::external_body]
pub struct ExConnection(rusqlite::Connection);

/// `rusqlite::Statement`, a prepared statement of a connection.
#[verifier::external_type_specification]
#[verifier::external_body]
pub struct ExStatement<'conn>(rusqlite::Statement<'conn>);

/// `rusqlite::Row`, one row of a query's result.
#[verifier::external_type_specification]
#[verifier::external_body]
pub struct ExRow<'stmt>(rusqlite::Row<'stmt>);

/// `rusqlite::Error`, what a failed database call returns.
#[verifier::external_type_specification]
#[verifier::external_body]
pub struct ExSqliteError(rusqlite::Error);

/// Calls `Connection::prepare`. Whether the database accepts the SQL depends on
/// its schema, so nothing is claimed of the result.
#[verifier::external_body]
fn prepare<'c>(conn: &'c rusqlite::Connection, sql: &String) -> Result<
    rusqlite::Statement<'c>,
    rusqlite::Error,
> {
    conn.prepare(sql.as_str())
}

/// Calls `Statement::query_map` with the parameters in order and `map_word` as
/// the row mapping, and collects the rows, stopping at the first error. The rows
/// depend on what the database holds, so nothing is claimed of them.
#[verifier::external_body]
fn query_words(statement: rusqlite::Statement<'_>, params: &Vec<String>) -> Result<
    Vec<Word>,
    rusqlite::Error,
> {
    let mut statement = statement;
    let words = statement.query_map(rusqlite::params_from_iter(params.iter()), map_word)?.collect();
    words
}

/// Calls `Row::get` for an integer column. The value depends on the row, so
/// nothing is claimed of it.
#[verifier::external_body]
fn column_integer(row: &rusqlite::Row<'_>, index: usize) -> Result<i32, rusqlite::Error> {
    row.get(index)
}

/// Calls `Row::get` for a text column. The value depends on the row, so
/// nothing is claimed of it.
#[verifier::external_body]
fn column_text(row: &rusqlite::Row<'_>, index: usize) -> Result<String, rusqlite::Error> {
    row.get(index)
}

/// The entry read from the five columns of a row, or the error of the first
/// column, in column order, that could not be read.
pub open spec fn word_from_columns_spec(
    id: Result<i32, rusqlite::Error>,
    traditional: Result<String, rusqlite::Error>,
    simplified: Result<String, rusqlite::Error>,
    pinyin: Result<String, rusqlite::Error>,
    definition: Result<String, rusqlite::Error>,
) -> Result<Word, rusqlite::Error> {
    match (id, traditional, simplified, pinyin, definition) {
        (Ok(id), Ok(traditional), Ok(simplified), Ok(pinyin), Ok(definition)) => Ok(
            Word { id, traditional, simplified, pinyin, definition },
        ),
        (Err(e), _, _, _, _) => Err(e),
        (Ok(_), Err(e), _, _, _) => Err(e),
        (Ok(_), Ok(_), Err(e), _, _) => Err(e),
        (Ok(_), Ok(_), Ok(_), Err(e), _) => Err(e),
        (Ok(_), Ok(_), Ok(_), Ok(_), Err(e)) => Err(e),
    }
}

/// Builds an entry from what was read of its columns: the id, the traditional
/// form, the simplified form, the pinyin and the definition; the first failed
/// read, in that order, is the error.
pub fn word_from_columns(
    id: Result<i32, rusqlite::Error>,
    traditional: Result<String, rusqlite::Error>,
    simplified: Result<String, rusqlite::Error>,
    pinyin: Result<String, rusqlite::Error>,
    definition: Result<String, rusqlite::Error>,
) -> (word: Result<Word, rusqlite::Error>)
    ensures
        word == word_from_columns_spec(id, traditional, simplified, pinyin, definition),
{
    let id = id?;
    let traditional = traditional?;
    let simplified = simplified?;
    let pinyin = pinyin?;
    let definition = definition?;
    Ok(Word { id, traditional, simplified, pinyin, definition })
}

/// Reads an entry from a result row whose columns are, in order, the id, the
/// traditional form, the simplified form, the pinyin and the definition: the
/// entry is built from what reading column 0 as an integer and columns 1 to 4
/// as text gave.
fn map_word(row: &rusqlite::Row<'_>) -> (word: Result<Word, rusqlite::Error>)
    ensures
        exists|
            id: Result<i32, rusqlite::Error>,
            traditional: Result<String, rusqlite::Error>,
            simplified: Result<String, rusqlite::Error>,
            pinyin: Result<String, rusqlite::Error>,
            definition: Result<String, rusqlite::Error>,
        |
            {
                &&& call_ensures(column_integer, (row, 0usize), id)
                &&& call_ensures(column_text, (row, 1usize), traditional)
                &&& call_ensures(column_text, (row, 2usize), simplified)
                &&& call_ensures(column_text, (row, 3usize), pinyin)
                &&& call_ensures(column_text, (row, 4usize), definition)
                &&& word == word_from_columns_spec(id, traditional, simplified, pinyin, definition)
            },
{
    let read_integer = column_integer;
    let read_text = column_text;
    let id = read_integer(row, 0);
    let traditional = read_text(row, 1);
    let simplified = read_text(row, 2);
    let pinyin = read_text(row, 3);
    let definition = read_text(row, 4);
    word_from_columns(id, traditional, simplified, pinyin, definition)
}

/// Whether `message` is the text that `error` displays.
pub open spec fn is_message_of(error: rusqlite::Error, message: String) -> bool {
    vstd::string::to_string_from_display_ensures::<rusqlite::Error>(&error, message)
}

/// Whether `message` is the text that some database error displays.
pub open spec fn is_database_message(message: String) -> bool {
    exists|error: rusqlite::Error| is_message_of(error, message)
}

/// The error of the library for a failed database call: the database's message.
fn database_error(error: rusqlite::Error) -> (e: DictionaryError)
    ensures
        e matches DictionaryError::Database(message) && is_message_of(error, message),
{
    DictionaryError::Database(error.to_string())
}

/// Whether `result` is the search answer for what the database answered:
/// its entries, or its error as a `DictionaryError::Database` with the error's
/// text.
pub open spec fn is_search_answer(
    answer: Result<Vec<Word>, rusqlite::Error>,
    result: Result<Vec<Word>, DictionaryError>,
) -> bool {
    &&& answer matches Ok(words) ==> result == Ok::<Vec<Word>, DictionaryError>(words)
    &&& answer matches Err(error) ==> (result matches Err(DictionaryError::Database(message))
        && is_message_of(error, message))
}

/// A successful database answer reaches the caller unchanged, entries in the
/// same number and order; a failed one reaches it as a database error.
pub proof fn lemma_search_answer_passes_entries_through(
    answer: Result<Vec<Word>, rusqlite::Error>,
    result: Result<Vec<Word>, DictionaryError>,
)
    requires
        is_search_answer(answer, result),
    ensures
        answer matches Ok(words) ==> (result matches Ok(got) && got@ == words@ && got == words),
        answer is Err ==> result is Err,
{
}

/// The answer of a search from the database's answer: its entries, or the
/// database's error as a `DictionaryError::Database` with the error's text.
pub fn search_answer(answer: Result<Vec<Word>, rusqlite::Error>) -> (result: Result<
    Vec<Word>,
    DictionaryError,
>)
    ensures
        is_search_answer(answer, result),
{
    match answer {
        Ok(words) => Ok(words),
        Err(error) => Err(database_error(error)),
    }
}

/// The dictionary stored in a SQLite database with an entries table
/// `cedict_dictionary` and its full-text index `cedict_dictionary_fts`.
pub struct DictionaryRepo {
    conn: rusqlite::Connection,
}

impl DictionaryRepo {
    /// The database that the repository reads.
    pub closed spec fn database(&self) -> rusqlite::Connection {
        self.conn
    }

    /// A repository reading `conn`.
    pub fn new(conn: rusqlite::Connection) -> (repo: Self)
        ensures
            repo.database() == conn,
    {
        Self { conn }
    }

    /// The database that the repository reads.
    pub fn connection(&self) -> (conn: &rusqlite::Connection)
        ensures
            *conn == self.database(),
    {
        &self.conn
    }

    /// Whether `result` is what running `statement` gives: the outcome of
    /// `prepare` on the database and the statement's SQL text; on an error, a
    /// database error with its text; otherwise the outcome of `query_words` on
    /// the prepared statement and the statement's parameters, as a search
    /// answer.
    pub closed spec fn answers_statement(
        &self,
        statement: &SqlStatement,
        result: Result<Vec<Word>, DictionaryError>,
    ) -> bool {
        exists|prepared: Result<rusqlite::Statement<'_>, rusqlite::Error>|
            {
                &&& call_ensures(prepare, (&self.conn, &statement.sql), prepared)
                &&& match prepared {
                    Err(error) => result matches Err(DictionaryError::Database(message))
                        && is_message_of(error, message),
                    Ok(prepared) => exists|answer: Result<Vec<Word>, rusqlite::Error>|
                        call_ensures(query_words, (prepared, &statement.params), answer)
                            && is_search_answer(answer, result),
                }
            }
    }

    /// Runs `statement` and reads its rows as entries: prepares its SQL text on
    /// the database and, when that succeeds, queries the prepared statement
    /// with its parameters in order. A failure of either call is reported as
    /// `DictionaryError::Database` with the text of the database's error.
    pub fn run(&self, statement: &SqlStatement) -> (result: Result<Vec<Word>, DictionaryError>)
        ensures
            self.answers_statement(statement, result),
            result matches Err(DictionaryError::Database(message)) ==> is_database_message(
                message,
            ),
    {
        let prepare_statement = prepare;
        let query = query_words;
        let prepared = prepare_statement(&self.conn, &statement.sql);
        match prepared {
            Err(error) => Err(database_error(error)),
            Ok(prepared) => {
                let answer = query(prepared, &statement.params);
                search_answer(answer)
            },
        }
    }
}

impl DictionaryRepoTrait for DictionaryRepo {
    /// The answer is what `run` gives for the character search's statement of
    /// `query`; a failure carries the text of the database's error.
    open spec fn hanzi_outcome(
        &self,
        query: Seq<char>,
        result: Result<Vec<Word>, DictionaryError>,
    ) -> bool {
        &&& exists|statement: SqlStatement|
            {
                &&& statement.sql@ == hanzi_sql(query.len() == 0)
                &&& views_of(statement.params@) == (if query.len() == 0 {
                    Seq::<Seq<char>>::empty()
                } else {
                    seq![query]
                })
                &&& #[trigger] call_ensures(DictionaryRepo::run, (self, &statement), result)
            }
        &&& result matches Err(DictionaryError::Database(message)) ==> is_database_message(message)
    }

    /// The answer is what `run` gives for the full-text search's statement of
    /// `query`; a failure carries the text of the database's error.
    open spec fn other_outcome(
        &self,
        query: Seq<char>,
        result: Result<Vec<Word>, DictionaryError>,
    ) -> bool {
        &&& exists|statement: SqlStatement|
            {
                &&& statement.sql@ == other_sql(query.len() == 0)
                &&& views_of(statement.params@) == (if query.len() == 0 {
                    Seq::<Seq<char>>::empty()
                } else {
                    seq![fts_escape_spec(query), lowercase_of(query)]
                })
                &&& #[trigger] call_ensures(DictionaryRepo::run, (self, &statement), result)
            }
        &&& result matches Err(DictionaryError::Database(message)) ==> is_database_message(message)
    }

    /// Runs `hanzi_statement(query)`.
    fn search_by_hanzi(&self, query: &str) -> (result: Result<Vec<Word>, DictionaryError>) {
        let statement = hanzi_statement(query);
        let run = DictionaryRepo::run;
        run(self, &statement)
    }

    /// Runs `other_statement(query)`.
    fn search_by_other(&self, query: &str) -> (result: Result<Vec<Word>, DictionaryError>) {
        let statement = other_statement(query);
        let run = DictionaryRepo::run;
        run(self, &statement)
    }
}


/// The character search runs the entries table's statement on the query as it
/// is: with a query, the prefix filter on it and exact matches first, with the
/// query as the only parameter; without one, the most frequent entries.
pub proof fn lemma_character_search_uses_the_query(
    repo: &DictionaryRepo,
    query: Seq<char>,
    result: Result<Vec<Word>, DictionaryError>,
)
    requires
        repo.hanzi_outcome(query, result),
    ensures
        exists|statement: SqlStatement|
            {
                &&& #[trigger] call_ensures(DictionaryRepo::run, (repo, &statement), result)
                &&& query.len() > 0 ==> statement.sql@ == HANZI_SELECT@ + HANZI_PREFIX_FILTER@
                    + HANZI_ORDER_EXACT@ && statement.params@.len() == 1
                    && statement.params@[0]@ == query
                &&& query.len() == 0 ==> statement.sql@ == HANZI_SELECT@ + HANZI_ORDER_POPULAR@
                    && statement.params@.len() == 0
            },
{
    let statement = choose|statement: SqlStatement|
        {
            &&& statement.sql@ == hanzi_sql(query.len() == 0)
            &&& views_of(statement.params@) == (if query.len() == 0 {
                Seq::<Seq<char>>::empty()
            } else {
                seq![query]
            })
            &&& #[trigger] call_ensures(DictionaryRepo::run, (repo, &statement), result)
        };
    assert(views_of(statement.params@).len() == statement.params@.len());
    if query.len() > 0 {
        assert(views_of(statement.params@)[0] == statement.params@[0]@);
    }
}

/// The full-text search of a query with terms runs the full-text statement on
/// the whole query: its match parameter, split at spaces and unquoted, gives
/// every whitespace-separated term of the query in order, and its ranking
/// parameter is the whole query lowercased.
pub proof fn lemma_full_text_search_uses_every_term(
    repo: &DictionaryRepo,
    query: Seq<char>,
    result: Result<Vec<Word>, DictionaryError>,
)
    requires
        repo.other_outcome(query, result),
        split_whitespace_spec(query).len() > 0,
    ensures
        exists|statement: SqlStatement|
            {
                &&& #[trigger] call_ensures(DictionaryRepo::run, (repo, &statement), result)
                &&& statement.sql@ == OTHER_SELECT@ + OTHER_MATCH_FILTER@ + OTHER_ORDER_RELEVANT@
                &&& statement.params@.len() == 2
                &&& statement.params@[1]@ == lowercase_of(query)
                &&& split_char_spec(statement.params@[0]@, ' ').len() == split_whitespace_spec(
                    query,
                ).len()
                &&& forall|i: int|
                    0 <= i < split_whitespace_spec(query).len() ==> unquote_term(
                        #[trigger] split_char_spec(statement.params@[0]@, ' ')[i],
                    ) == split_whitespace_spec(query)[i]
            },
{
    assert(query.len() > 0);
    let statement = choose|statement: SqlStatement|
        {
            &&& statement.sql@ == other_sql(query.len() == 0)
            &&& views_of(statement.params@) == (if query.len() == 0 {
                Seq::<Seq<char>>::empty()
            } else {
                seq![fts_escape_spec(query), lowercase_of(query)]
            })
            &&& #[trigger] call_ensures(DictionaryRepo::run, (repo, &statement), result)
        };
    assert(views_of(statement.params@).len() == statement.params@.len());
    assert(views_of(statement.params@)[0] == statement.params@[0]@);
    assert(views_of(statement.params@)[1] == statement.params@[1]@);
    lemma_escape_round_trip(query);
    let terms = split_whitespace_spec(query);
    assert(split_char_spec(statement.params@[0]@, ' ') == quoted_terms(terms));
    assert forall|i: int| 0 <= i < terms.len() implies unquote_term(
        #[trigger] split_char_spec(statement.params@[0]@, ' ')[i],
    ) == terms[i] by {
        assert(terms[i] == terms[i]);
    }
    assert(call_ensures(DictionaryRepo::run, (repo, &statement), result));
}

} // verus!
