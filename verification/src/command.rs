//! Routing of user queries: Chinese characters (and empty input) go to the
//! character search, everything else to the full-text search.

use vstd::prelude::*;

use crate::domain::{DictionaryCommandTrait, DictionaryError, DictionaryRepoTrait, Word};
use crate::text::{
    all_white_space, chars_of, is_white_space, lemma_trim_splits_text, trim, trim_end_spec,
    trim_spec, trim_start_spec,
};

verus! {

/// Whether `c` is a CJK ideograph: CJK Unified Ideographs, Extension A, or the
/// supplementary ideographic planes up to the compatibility supplement.
pub open spec fn is_hanzi(c: char) -> bool {
    ||| ('\u{3400}' <= c && c <= '\u{4DBF}')
    ||| ('\u{4E00}' <= c && c <= '\u{9FFF}')
    ||| ('\u{20000}' <= c && c <= '\u{2FA1F}')
}

/// Whether some character of `s` is a CJK ideograph.
pub open spec fn has_hanzi(s: Seq<char>) -> bool {
    exists|i: int| 0 <= i < s.len() && is_hanzi(#[trigger] s[i])
}

/// Whether a trimmed query goes to the character search.
pub open spec fn routes_to_hanzi(q: Seq<char>) -> bool {
    has_hanzi(q) || q.len() == 0
}

/// A concatenation holds an ideograph exactly when one of its parts does.
pub proof fn lemma_has_hanzi_concat(a: Seq<char>, b: Seq<char>)
    ensures
        has_hanzi(a + b) == (has_hanzi(a) || has_hanzi(b)),
{
    if has_hanzi(a) {
        let i = choose|i: int| 0 <= i < a.len() && is_hanzi(#[trigger] a[i]);
        assert((a + b)[i] == a[i]);
    }
    if has_hanzi(b) {
        let i = choose|i: int| 0 <= i < b.len() && is_hanzi(#[trigger] b[i]);
        assert((a + b)[a.len() + i] == b[i]);
    }
    if has_hanzi(a + b) {
        let i = choose|i: int| 0 <= i < (a + b).len() && is_hanzi(#[trigger] (a + b)[i]);
        if i < a.len() {
            assert(a[i] == (a + b)[i]);
        } else {
            assert(b[i - a.len()] == (a + b)[i]);
        }
    }
}

/// No whitespace character is an ideograph.
pub proof fn lemma_white_space_has_no_hanzi(s: Seq<char>)
    requires
        all_white_space(s),
    ensures
        !has_hanzi(s),
{
    assert forall|i: int| 0 <= i < s.len() implies !is_hanzi(#[trigger] s[i]) by {
        assert(is_white_space(s[i]));
    }
}

/// Whitespace around a text does not change whether it holds an ideograph;
/// in particular a query holds one exactly when its trimmed form does.
pub proof fn lemma_has_hanzi_ignores_white_space(p: Seq<char>, q: Seq<char>, r: Seq<char>)
    requires
        all_white_space(p),
        all_white_space(r),
    ensures
        has_hanzi(p + q + r) == has_hanzi(q),
        has_hanzi(trim_spec(q)) == has_hanzi(q),
{
    lemma_has_hanzi_concat(p, q);
    lemma_has_hanzi_concat(p + q, r);
    lemma_white_space_has_no_hanzi(p);
    lemma_white_space_has_no_hanzi(r);
    let (a, b) = lemma_trim_splits_text(q);
    lemma_has_hanzi_concat(a, trim_spec(q));
    lemma_has_hanzi_concat(a + trim_spec(q), b);
    lemma_white_space_has_no_hanzi(a);
    lemma_white_space_has_no_hanzi(b);
}

/// A trimmed query goes to the character search exactly when it is empty or
/// holds a character of CJK Unified Ideographs Extension A (U+3400 to U+4DBF),
/// CJK Unified Ideographs (U+4E00 to U+9FFF) or the supplementary ideographic
/// planes up to U+2FA1F.
pub proof fn lemma_routing_by_ideograph_ranges(q: Seq<char>)
    ensures
        routes_to_hanzi(q) <==> (q.len() == 0 || exists|i: int|
            #![trigger q[i]]
            0 <= i < q.len() && {
                ||| ('\u{3400}' <= q[i] && q[i] <= '\u{4DBF}')
                ||| ('\u{4E00}' <= q[i] && q[i] <= '\u{9FFF}')
                ||| ('\u{20000}' <= q[i] && q[i] <= '\u{2FA1F}')
            }),
{
}

/// Every character of the three ideograph ranges is an ideograph on its own,
/// and a query of one such character, however padded with whitespace, goes
/// to the character search.
pub proof fn lemma_each_ideograph_routes_to_hanzi(c: char, p: Seq<char>, r: Seq<char>)
    requires
        ('\u{3400}' <= c && c <= '\u{4DBF}') || ('\u{4E00}' <= c && c <= '\u{9FFF}') || (
        '\u{20000}' <= c && c <= '\u{2FA1F}'),
        all_white_space(p),
        all_white_space(r),
    ensures
        has_hanzi(seq![c]),
        routes_to_hanzi(trim_spec(p + seq![c] + r)),
{
    assert(seq![c][0] == c);
    crate::text::lemma_trim_ignores_surrounding_white_space(p, seq![c], r);
    lemma_has_hanzi_ignores_white_space(Seq::<char>::empty(), seq![c], Seq::<char>::empty());
    assert(!is_white_space(c));
    assert(trim_start_spec(seq![c]) == seq![c]);
    assert(seq![c].drop_last() =~= Seq::<char>::empty());
    assert(trim_end_spec(seq![c]) == seq![c]);
}

/// Searches the dictionary through a repository, choosing the search by what
/// the query is written in.
pub struct DictionaryCommand<R: DictionaryRepoTrait> {
    repo: R,
}

impl<R: DictionaryRepoTrait> DictionaryCommand<R> {
    /// The repository that the command searches.
    pub closed spec fn repository(&self) -> R {
        self.repo
    }

    /// A command searching `repo`.
    pub fn new(repo: R) -> (command: Self)
        ensures
            command.repository() == repo,
    {
        Self { repo }
    }

    /// The repository that the command searches.
    pub fn repo(&self) -> (repo: &R)
        ensures
            *repo == self.repository(),
    {
        &self.repo
    }

    /// Whether `s` holds a CJK ideograph.
    pub fn contains_hanzi(s: &str) -> (found: bool)
        ensures
            found == has_hanzi(s@),
    {
        let chars = chars_of(s);
        let n = chars.len();
        for i in 0..n
            invariant
                n == chars@.len(),
                chars@ == s@,
                forall|k: int| 0 <= k < i ==> !is_hanzi(#[trigger] s@[k]),
        {
            let c = chars[i];
            if ('\u{3400}' <= c && c <= '\u{4DBF}') || ('\u{4E00}' <= c && c <= '\u{9FFF}') || (
            '\u{20000}' <= c && c <= '\u{2FA1F}') {
                assert(is_hanzi(s@[i as int]));
                return true;
            }
        }
        false
    }
}

impl<R: DictionaryRepoTrait> DictionaryCommandTrait for DictionaryCommand<R> {
    /// Trims the query; searches by characters when it holds a CJK ideograph
    /// or is empty, and by pinyin and definition otherwise. The answer is the
    /// chosen search's answer for the trimmed query, unchanged.
    fn search(&self, query: &str) -> (result: Result<Vec<Word>, DictionaryError>)
        ensures
            routes_to_hanzi(trim_spec(query@)) ==> exists|q: &str|
                q@ == trim_spec(query@) && call_ensures(
                    R::search_by_hanzi,
                    (&self.repository(), q),
                    result,
                ),
            !routes_to_hanzi(trim_spec(query@)) ==> exists|q: &str|
                q@ == trim_spec(query@) && call_ensures(
                    R::search_by_other,
                    (&self.repository(), q),
                    result,
                ),
            routes_to_hanzi(trim_spec(query@)) ==> self.repository().hanzi_outcome(
                trim_spec(query@),
                result,
            ),
            !routes_to_hanzi(trim_spec(query@)) ==> self.repository().other_outcome(
                trim_spec(query@),
                result,
            ),
    {
        let query = trim(query);
        if Self::contains_hanzi(query) || query.is_empty() {
            let by_hanzi = R::search_by_hanzi;
            by_hanzi(&self.repo, query)
        } else {
            let by_other = R::search_by_other;
            by_other(&self.repo, query)
        }
    }
}

} // verus!
