//! Character-level text utilities shared by the dictionary and the clipboard
//! watcher: Unicode whitespace, trimming, splitting into terms and joining.

use vstd::prelude::*;

verus! {

/// Whether `c` carries the Unicode `White_Space` property (PropList.txt):
/// U+0009 to U+000D, U+0020, U+0085, U+00A0, U+1680, U+2000 to U+200A,
/// U+2028, U+2029, U+202F, U+205F and U+3000.
pub open spec fn is_white_space(c: char) -> bool {
    ||| ('\u{9}' <= c && c <= '\u{D}')
    ||| c == ' '
    ||| c == '\u{85}'
    ||| c == '\u{A0}'
    ||| c == '\u{1680}'
    ||| ('\u{2000}' <= c && c <= '\u{200A}')
    ||| c == '\u{2028}'
    ||| c == '\u{2029}'
    ||| c == '\u{202F}'
    ||| c == '\u{205F}'
    ||| c == '\u{3000}'
}

/// Calls `char::is_whitespace`, which its documentation defines as the Unicode
/// `White_Space` property; the contract claims the 25 code points of that
/// property.
#[verifier::external_body]
pub(crate) fn char_is_white_space(c: char) -> (r: bool)
    ensures
        r == is_white_space(c),
{
    c.is_whitespace()
}

/// Calls `String::push`; the contract claims that the character is appended.
#[verifier::external_body]
pub(crate) fn push_char(s: &mut String, c: char)
    ensures
        final(s)@ == old(s)@.push(c),
{
    s.push(c)
}

/// The characters of `s`, in order.
pub fn chars_of(s: &str) -> (v: Vec<char>)
    ensures
        v@ == s@,
{
    let mut v: Vec<char> = Vec::new();
    for c in it: s.chars()
        invariant
            it.seq() == s@,
            v@ == it.seq().take(it.index()),
    {
        v.push(c);
    }
    v
}

/// `s` without its leading whitespace.
pub open spec fn trim_start_spec(s: Seq<char>) -> Seq<char>
    decreases s.len(),
{
    if s.len() > 0 && is_white_space(s[0]) {
        trim_start_spec(s.drop_first())
    } else {
        s
    }
}

/// `s` without its trailing whitespace.
pub open spec fn trim_end_spec(s: Seq<char>) -> Seq<char>
    decreases s.len(),
{
    if s.len() > 0 && is_white_space(s.last()) {
        trim_end_spec(s.drop_last())
    } else {
        s
    }
}

/// `s` without leading and trailing whitespace.
pub open spec fn trim_spec(s: Seq<char>) -> Seq<char> {
    trim_end_spec(trim_start_spec(s))
}

/// Whether every character of `s` is whitespace.
pub open spec fn all_white_space(s: Seq<char>) -> bool {
    forall|k: int| 0 <= k < s.len() ==> is_white_space(#[trigger] s[k])
}

proof fn lemma_trim_start_skips_white_prefix(p: Seq<char>, x: Seq<char>)
    requires
        all_white_space(p),
    ensures
        trim_start_spec(p + x) == trim_start_spec(x),
    decreases p.len(),
{
    if p.len() > 0 {
        assert((p + x)[0] == p[0]);
        assert((p + x).drop_first() =~= p.drop_first() + x);
        assert forall|k: int| 0 <= k < p.drop_first().len() implies is_white_space(
            #[trigger] p.drop_first()[k],
        ) by {
            assert(p.drop_first()[k] == p[k + 1]);
        }
        lemma_trim_start_skips_white_prefix(p.drop_first(), x);
    } else {
        assert(p + x =~= x);
    }
}

proof fn lemma_trim_end_skips_white_suffix(x: Seq<char>, r: Seq<char>)
    requires
        all_white_space(r),
    ensures
        trim_end_spec(x + r) == trim_end_spec(x),
    decreases r.len(),
{
    if r.len() > 0 {
        assert((x + r).last() == r.last());
        assert((x + r).drop_last() =~= x + r.drop_last());
        assert forall|k: int| 0 <= k < r.drop_last().len() implies is_white_space(
            #[trigger] r.drop_last()[k],
        ) by {
            assert(r.drop_last()[k] == r[k]);
        }
        lemma_trim_end_skips_white_suffix(x, r.drop_last());
    } else {
        assert(x + r =~= x);
    }
}

proof fn lemma_trim_start_of_append(q: Seq<char>, r: Seq<char>)
    requires
        all_white_space(r),
    ensures
        trim_start_spec(q).len() > 0 ==> trim_start_spec(q + r) == trim_start_spec(q) + r,
        trim_start_spec(q).len() == 0 ==> trim_start_spec(q + r).len() == 0,
    decreases q.len(),
{
    if q.len() == 0 {
        assert(q + r =~= r);
        lemma_trim_start_skips_white_prefix(r, Seq::<char>::empty());
        assert(r + Seq::<char>::empty() =~= r);
    } else {
        assert((q + r)[0] == q[0]);
        if is_white_space(q[0]) {
            assert((q + r).drop_first() =~= q.drop_first() + r);
            lemma_trim_start_of_append(q.drop_first(), r);
        }
    }
}

/// Whitespace around a query does not change what it trims to: a query and
/// the same query padded with whitespace are searched alike.
pub proof fn lemma_trim_ignores_surrounding_white_space(p: Seq<char>, q: Seq<char>, r: Seq<char>)
    requires
        all_white_space(p),
        all_white_space(r),
    ensures
        trim_spec(p + q + r) == trim_spec(q),
{
    assert(p + q + r =~= p + (q + r));
    lemma_trim_start_skips_white_prefix(p, q + r);
    lemma_trim_start_of_append(q, r);
    if trim_start_spec(q).len() > 0 {
        lemma_trim_end_skips_white_suffix(trim_start_spec(q), r);
    } else {
        assert(trim_start_spec(q + r) =~= trim_start_spec(q));
    }
}

/// The leading whitespace that trimming the start removes: `trim_start_spec(s)`
/// is `s` without its first `k` characters, all of them whitespace.
pub proof fn lemma_trim_start_removes_white_prefix(s: Seq<char>) -> (k: int)
    ensures
        0 <= k <= s.len(),
        trim_start_spec(s) == s.skip(k),
        all_white_space(s.take(k)),
    decreases s.len(),
{
    if s.len() > 0 && is_white_space(s[0]) {
        let t = s.drop_first();
        let j = lemma_trim_start_removes_white_prefix(t);
        assert(t.skip(j) =~= s.skip(j + 1));
        assert forall|i: int| 0 <= i < s.take(j + 1).len() implies is_white_space(
            #[trigger] s.take(j + 1)[i],
        ) by {
            if i > 0 {
                assert(s.take(j + 1)[i] == t.take(j)[i - 1]);
            }
        }
        j + 1
    } else {
        assert(s.skip(0) =~= s);
        0
    }
}

/// The trailing whitespace that trimming the end removes: `trim_end_spec(s)`
/// is the first `k` characters of `s`, and all the rest is whitespace.
pub proof fn lemma_trim_end_removes_white_suffix(s: Seq<char>) -> (k: int)
    ensures
        0 <= k <= s.len(),
        trim_end_spec(s) == s.take(k),
        all_white_space(s.skip(k)),
    decreases s.len(),
{
    if s.len() > 0 && is_white_space(s.last()) {
        let t = s.drop_last();
        let j = lemma_trim_end_removes_white_suffix(t);
        assert(t.take(j) =~= s.take(j));
        assert forall|i: int| 0 <= i < s.skip(j).len() implies is_white_space(
            #[trigger] s.skip(j)[i],
        ) by {
            if j + i < t.len() {
                assert(s.skip(j)[i] == t.skip(j)[i]);
            }
        }
        j
    } else {
        assert(s.take(s.len() as int) =~= s);
        s.len() as int
    }
}

/// A text is its trimmed part with whitespace before and after it.
pub proof fn lemma_trim_splits_text(s: Seq<char>) -> (pad: (Seq<char>, Seq<char>))
    ensures
        all_white_space(pad.0),
        all_white_space(pad.1),
        s == pad.0 + trim_spec(s) + pad.1,
{
    let k = lemma_trim_start_removes_white_prefix(s);
    let t = s.skip(k);
    let m = lemma_trim_end_removes_white_suffix(t);
    assert(s =~= s.take(k) + t.take(m) + t.skip(m));
    (s.take(k), t.skip(m))
}

/// The part of `s` between its leading and its trailing whitespace.
pub fn trim(s: &str) -> (t: &str)
    ensures
        t@ == trim_spec(s@),
{
    let chars = chars_of(s);
    let n = chars.len();
    let mut start: usize = 0;
    assert(s@.skip(0) =~= s@);
    while start < n && char_is_white_space(chars[start])
        invariant
            n == chars@.len(),
            chars@ == s@,
            start <= n,
            trim_start_spec(s@) == trim_start_spec(s@.skip(start as int)),
        decreases n - start,
    {
        assert(s@.skip(start as int).drop_first() =~= s@.skip(start + 1));
        start = start + 1;
    }
    proof {
        if start < n {
            assert(s@.skip(start as int)[0] == s@[start as int]);
        } else {
            assert(s@.skip(start as int).len() == 0);
        }
    }
    let mut end: usize = n;
    while end > start && char_is_white_space(chars[end - 1])
        invariant
            n == chars@.len(),
            chars@ == s@,
            start <= end <= n,
            trim_start_spec(s@) == s@.skip(start as int),
            trim_spec(s@) == trim_end_spec(s@.subrange(start as int, end as int)),
        decreases end - start,
    {
        assert(s@.subrange(start as int, end as int).drop_last() =~= s@.subrange(
            start as int,
            end - 1,
        ));
        end = end - 1;
    }
    proof {
        assert(s@.skip(start as int) =~= s@.subrange(start as int, n as int));
    }
    s.substring_char(start, end)
}

/// Calls `str::to_lowercase`; the contract claims only that the answer is a
/// function of the text, named `lowercase_of`.
#[verifier::external_body]
pub(crate) fn to_lowercase(s: &str) -> (r: String)
    ensures
        r@ == lowercase_of(s@),
{
    s.to_lowercase()
}

/// The Unicode lowercase mapping of `s`, as computed by `str::to_lowercase`.
pub uninterp spec fn lowercase_of(s: Seq<char>) -> Seq<char>;

/// The number of characters before the first whitespace in `s`.
pub open spec fn token_len(s: Seq<char>) -> nat
    decreases s.len(),
{
    if s.len() == 0 || is_white_space(s[0]) {
        0
    } else {
        1 + token_len(s.drop_first())
    }
}

/// A term is never longer than the text it starts, and is not empty when the
/// text starts with a non-whitespace character.
pub proof fn lemma_token_len_bounds(s: Seq<char>)
    ensures
        token_len(s) <= s.len(),
        s.len() > 0 && !is_white_space(s[0]) ==> token_len(s) >= 1,
    decreases s.len(),
{
    if s.len() > 0 && !is_white_space(s[0]) {
        lemma_token_len_bounds(s.drop_first());
    }
}

/// When the first `m` characters are not whitespace and the next one is (or
/// the text ends there), the first term is `m` characters long.
pub proof fn lemma_token_len_exact(s: Seq<char>, m: int)
    requires
        0 <= m <= s.len(),
        forall|k: int| 0 <= k < m ==> !is_white_space(#[trigger] s[k]),
        m == s.len() || is_white_space(s[m]),
    ensures
        token_len(s) == m,
    decreases m,
{
    if m > 0 {
        let t = s.drop_first();
        assert forall|k: int| 0 <= k < m - 1 implies !is_white_space(#[trigger] t[k]) by {
            assert(t[k] == s[k + 1]);
        }
        if m < s.len() {
            assert(t[m - 1] == s[m]);
        }
        lemma_token_len_exact(t, m - 1);
    }
}

/// The first term of a text holds no whitespace.
pub proof fn lemma_token_has_no_white_space(s: Seq<char>)
    ensures
        forall|k: int| 0 <= k < token_len(s) ==> !is_white_space(#[trigger] s[k]),
    decreases s.len(),
{
    if s.len() > 0 && !is_white_space(s[0]) {
        let t = s.drop_first();
        lemma_token_has_no_white_space(t);
        lemma_token_len_bounds(t);
        assert forall|k: int| 0 <= k < token_len(s) implies !is_white_space(#[trigger] s[k]) by {
            if k > 0 {
                assert(s[k] == t[k - 1]);
            }
        }
    }
}

/// Every term of a text is a non-empty run of non-whitespace characters.
pub proof fn lemma_split_terms_are_words(s: Seq<char>)
    ensures
        forall|i: int| #![trigger split_whitespace_spec(s)[i]]
            0 <= i < split_whitespace_spec(s).len() ==> {
                let term = split_whitespace_spec(s)[i];
                &&& term.len() > 0
                &&& forall|k: int| 0 <= k < term.len() ==> !is_white_space(#[trigger] term[k])
            },
    decreases s.len(),
{
    if s.len() == 0 {
    } else if is_white_space(s[0]) {
        lemma_split_terms_are_words(s.drop_first());
        assert(split_whitespace_spec(s) == split_whitespace_spec(s.drop_first()));
    } else {
        let n = token_len(s);
        lemma_token_len_bounds(s);
        lemma_token_has_no_white_space(s);
        lemma_split_terms_are_words(s.skip(n as int));
        let words = split_whitespace_spec(s);
        let rest = split_whitespace_spec(s.skip(n as int));
        assert(words == seq![s.take(n as int)] + rest);
        assert forall|i: int| #![trigger words[i]] 0 <= i < words.len() implies {
            let term = words[i];
            &&& term.len() > 0
            &&& forall|k: int| 0 <= k < term.len() ==> !is_white_space(#[trigger] term[k])
        } by {
            if i == 0 {
                assert(words[0] == s.take(n as int));
                assert forall|k: int| 0 <= k < n implies !is_white_space(
                    #[trigger] s.take(n as int)[k],
                ) by {
                    assert(s.take(n as int)[k] == s[k]);
                }
            } else {
                assert(words[i] == rest[i - 1]);
            }
        }
    }
}

/// The maximal runs of non-whitespace characters of `s`, in order, as
/// `str::split_whitespace` yields them.
pub open spec fn split_whitespace_spec(s: Seq<char>) -> Seq<Seq<char>>
    decreases s.len(),
{
    if s.len() == 0 {
        seq![]
    } else if is_white_space(s[0]) {
        split_whitespace_spec(s.drop_first())
    } else {
        let n = token_len(s);
        proof {
            lemma_token_len_bounds(s);
        }
        seq![s.take(n as int)] + split_whitespace_spec(s.skip(n as int))
    }
}

/// The parts joined with `sep` between neighbours, as `[T]::join` does.
pub open spec fn join_spec(parts: Seq<Seq<char>>, sep: Seq<char>) -> Seq<char>
    decreases parts.len(),
{
    if parts.len() == 0 {
        seq![]
    } else if parts.len() == 1 {
        parts[0]
    } else {
        join_spec(parts.drop_last(), sep) + sep + parts.last()
    }
}

/// The views of a list of strings.
pub open spec fn views_of(v: Seq<String>) -> Seq<Seq<char>> {
    v.map_values(|s: String| s@)
}

/// The strings of `parts` joined with `sep` between neighbours.
pub fn join_strings(parts: &Vec<String>, sep: &str) -> (joined: String)
    ensures
        joined@ == join_spec(views_of(parts@), sep@),
{
    let mut joined = String::new();
    let n = parts.len();
    for i in 0..n
        invariant
            n == parts@.len(),
            joined@ == join_spec(views_of(parts@.take(i as int)), sep@),
    {
        let ghost prefix = views_of(parts@.take(i + 1));
        assert(prefix.drop_last() =~= views_of(parts@.take(i as int)));
        if i != 0 {
            joined.append(sep);
        }
        joined.append(parts[i].as_str());
    }
    assert(parts@.take(n as int) =~= parts@);
    joined
}

} // verus!
