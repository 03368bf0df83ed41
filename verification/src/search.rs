//! Token search over candidate display strings.
//!
//! A candidate passes a query when its matcher key contains every query token
//! as a substring. The filter is stable: candidates keep their relative order.

use vstd::prelude::*;

use crate::text::{contains_sub, contains_token, matcher_chars, matcher_of, tokenize, tokens_of};

verus! {

/// A matcher passes a query when it contains every query token.
pub open spec fn query_matches(matcher: Seq<char>, q: Seq<char>) -> bool {
    forall|t: Seq<char>| tokens_of(q).contains(t) ==> contains_token(matcher, t)
}

/// The candidates whose matchers pass the query, in their original order.
pub open spec fn search_spec(options: Seq<Seq<char>>, matchers: Seq<Seq<char>>, q: Seq<char>) -> Seq<
    Seq<char>,
>
    decreases options.len(),
{
    if options.len() == 0 || matchers.len() == 0 {
        Seq::empty()
    } else {
        let rest = search_spec(options.drop_first(), matchers.drop_first(), q);
        if query_matches(matchers[0], q) {
            seq![options[0]] + rest
        } else {
            rest
        }
    }
}

/// The matcher keys of a list of candidates, index for index.
pub open spec fn matchers_spec(options: Seq<Seq<char>>) -> Seq<Seq<char>> {
    options.map_values(|s: Seq<char>| matcher_of(s))
}

/// Whether a matcher passes the already-tokenized query.
fn matches_tokens(matcher: &Vec<char>, tokens: &Vec<Vec<char>>, Ghost(q): Ghost<Seq<char>>) -> (r:
    bool)
    requires
        tokens.deep_view() == tokens_of(q),
    ensures
        r == query_matches(matcher@, q),
{
    let n = tokens.len();
    let mut j: usize = 0;
    while j < n
        invariant
            n == tokens@.len(),
            tokens.deep_view() == tokens_of(q),
            j <= n,
            forall|k: int| 0 <= k < j ==> contains_token(matcher@, tokens_of(q)[k]),
        decreases n - j,
    {
        proof {
            assert(tokens@[j as int]@ =~= tokens.deep_view()[j as int]);
        }
        if !contains_sub(matcher, &tokens[j]) {
            proof {
                assert(tokens_of(q).contains(tokens_of(q)[j as int]));
            }
            return false;
        }
        j = j + 1;
    }
    proof {
        assert forall|t: Seq<char>| tokens_of(q).contains(t) implies contains_token(
            matcher@,
            t,
        ) by {
            let k = choose|k: int| 0 <= k < tokens_of(q).len() && tokens_of(q)[k] == t;
            assert(contains_token(matcher@, tokens_of(q)[k]));
        }
    }
    true
}

/// Search the list of options for a given query.
///
/// Returns the options whose matcher contains every token of the query as a
/// substring, keeping their original order. An empty query has no tokens, so
/// every option passes.
pub fn search(options: &Vec<String>, matchers: &Vec<String>, query: &str) -> (r: Vec<String>)
    requires
        options@.len() == matchers@.len(),
    ensures
        r.deep_view() == search_spec(options.deep_view(), matchers.deep_view(), query@),
{
    let tokens = tokenize(query);
    let n = options.len();
    let mut r: Vec<String> = Vec::new();
    let mut i: usize = 0;
    let ghost ov = options.deep_view();
    let ghost mv = matchers.deep_view();
    proof {
        assert(ov.skip(0) =~= ov);
        assert(mv.skip(0) =~= mv);
        assert(r.deep_view() + search_spec(ov, mv, query@) =~= search_spec(ov, mv, query@));
    }
    while i < n
        invariant
            n == options@.len(),
            options@.len() == matchers@.len(),
            ov == options.deep_view(),
            mv == matchers.deep_view(),
            tokens.deep_view() == tokens_of(query@),
            i <= n,
            search_spec(ov, mv, query@) == r.deep_view() + search_spec(
                ov.skip(i as int),
                mv.skip(i as int),
                query@,
            ),
        decreases n - i,
    {
        let ghost oldr = r.deep_view();
        proof {
            assert(ov.skip(i as int).drop_first() =~= ov.skip(i + 1));
            assert(mv.skip(i as int).drop_first() =~= mv.skip(i + 1));
            assert(ov.skip(i as int)[0] == ov[i as int]);
            assert(mv.skip(i as int)[0] == mv[i as int]);
        }
        let matcher = chars_of_string(&matchers[i]);
        if matches_tokens(&matcher, &tokens, Ghost(query@)) {
            r.push(options[i].clone());
            proof {
                assert(r.deep_view() =~~= oldr + seq![ov[i as int]]);
                assert(oldr + (seq![ov[i as int]] + search_spec(ov.skip(i + 1), mv.skip(i + 1), query@))
                    =~= (oldr + seq![ov[i as int]]) + search_spec(
                    ov.skip(i + 1),
                    mv.skip(i + 1),
                    query@,
                ));
            }
        }
        i = i + 1;
    }
    proof {
        assert(ov.skip(n as int) =~= Seq::<Seq<char>>::empty());
        assert(mv.skip(n as int) =~= Seq::<Seq<char>>::empty());
        assert(r.deep_view() + Seq::<Seq<char>>::empty() =~= r.deep_view());
    }
    r
}

/// The characters of an owned string.
fn chars_of_string(s: &String) -> (r: Vec<char>)
    ensures
        r@ == s@,
{
    crate::text::chars_of(s.as_str())
}

/// Build matcher keys for a list of candidates.
///
/// Each matcher is derived from its candidate's display string alone:
/// lowercased, with every character that is not ASCII alphanumeric removed.
pub fn build_matchers(options: &Vec<String>) -> (r: Vec<String>)
    ensures
        r.deep_view() == matchers_spec(options.deep_view()),
{
    let n = options.len();
    let mut r: Vec<String> = Vec::new();
    let mut i: usize = 0;
    while i < n
        invariant
            n == options@.len(),
            i <= n,
            r.deep_view() == matchers_spec(options.deep_view().take(i as int)),
        decreases n - i,
    {
        let ghost oldr = r.deep_view();
        let m = matcher_chars(options[i].as_str());
        r.push(string_from_chars(&m));
        proof {
            let ghost ov = options.deep_view();
            assert(r.deep_view() =~~= oldr + seq![matcher_of(ov[i as int])]);
            assert(matchers_spec(ov.take(i + 1)) =~~= matchers_spec(ov.take(i as int)) + seq![
                matcher_of(ov[i as int]),
            ]);
        }
        i = i + 1;
    }
    proof {
        assert(options.deep_view().take(n as int) =~= options.deep_view());
    }
    r
}

/// `sub` can be read off `sup` from left to right: an order-preserving
/// subsequence.
pub open spec fn is_subsequence(sub: Seq<Seq<char>>, sup: Seq<Seq<char>>) -> bool
    decreases sub.len(), sup.len(),
{
    if sub.len() == 0 {
        true
    } else if sup.len() == 0 {
        false
    } else if sub[0] == sup[0] {
        is_subsequence(sub.drop_first(), sup.drop_first())
    } else {
        is_subsequence(sub, sup.drop_first())
    }
}

/// Dropping the head of a subsequence leaves a subsequence.
proof fn lemma_subsequence_drop_head(sub: Seq<Seq<char>>, sup: Seq<Seq<char>>)
    requires
        sub.len() > 0,
        is_subsequence(sub, sup),
    ensures
        is_subsequence(sub.drop_first(), sup),
    decreases sup.len(),
{
    if sub[0] == sup[0] {
        if sub.drop_first().len() > 0 {
            lemma_subsequence_drop_head(sub.drop_first(), sup.drop_first());
        }
    } else {
        lemma_subsequence_drop_head(sub, sup.drop_first());
        if sub.drop_first().len() > 0 {
            lemma_subsequence_drop_head(sub.drop_first(), sup.drop_first());
        }
    }
}

/// A subsequence of `sup` is a subsequence of `sup` with one more element in
/// front.
proof fn lemma_subsequence_extend(sub: Seq<Seq<char>>, x: Seq<char>, sup: Seq<Seq<char>>)
    requires
        is_subsequence(sub, sup),
    ensures
        is_subsequence(sub, seq![x] + sup),
{
    let t = seq![x] + sup;
    if sub.len() > 0 {
        assert(t.drop_first() =~= sup);
        if sub[0] == t[0] {
            lemma_subsequence_drop_head(sub, sup);
        }
    }
}

/// The search result is an order-preserving subsequence of the candidate
/// list, for every candidate list, matcher list and query.
pub proof fn lemma_search_subsequence(options: Seq<Seq<char>>, matchers: Seq<Seq<char>>, q: Seq<
    char,
>)
    ensures
        is_subsequence(search_spec(options, matchers, q), options),
    decreases options.len(),
{
    if options.len() == 0 || matchers.len() == 0 {
    } else {
        lemma_search_subsequence(options.drop_first(), matchers.drop_first(), q);
        let rest = search_spec(options.drop_first(), matchers.drop_first(), q);
        if query_matches(matchers[0], q) {
            let r = seq![options[0]] + rest;
            assert(r.drop_first() =~= rest);
            assert(r[0] == options[0]);
        } else {
            lemma_subsequence_extend(rest, options[0], options.drop_first());
            assert(seq![options[0]] + options.drop_first() =~= options);
        }
    }
}

/// A query without tokens keeps every candidate: searching with it returns
/// the candidate list unchanged. The empty query has no tokens.
pub proof fn lemma_search_no_tokens(options: Seq<Seq<char>>, matchers: Seq<Seq<char>>, q: Seq<char>)
    requires
        options.len() == matchers.len(),
        tokens_of(q) == Seq::<Seq<char>>::empty(),
    ensures
        search_spec(options, matchers, q) == options,
    decreases options.len(),
{
    if options.len() == 0 {
        assert(search_spec(options, matchers, q) =~= options);
    } else {
        lemma_search_no_tokens(options.drop_first(), matchers.drop_first(), q);
        assert(query_matches(matchers[0], q));
        assert(seq![options[0]] + options.drop_first() =~= options);
    }
}

/// The search result depends on the query only through its set of tokens:
/// two queries whose token lists hold the same tokens — in particular, the
/// same tokens in any other order — filter identically.
pub proof fn lemma_search_token_set(
    options: Seq<Seq<char>>,
    matchers: Seq<Seq<char>>,
    q1: Seq<char>,
    q2: Seq<char>,
)
    requires
        forall|t: Seq<char>| tokens_of(q1).contains(t) <==> tokens_of(q2).contains(t),
    ensures
        search_spec(options, matchers, q1) == search_spec(options, matchers, q2),
    decreases options.len(),
{
    if options.len() == 0 || matchers.len() == 0 {
    } else {
        lemma_search_token_set(options.drop_first(), matchers.drop_first(), q1, q2);
        assert(query_matches(matchers[0], q1) == query_matches(matchers[0], q2)) by {
            if query_matches(matchers[0], q1) {
                assert forall|t: Seq<char>| tokens_of(q2).contains(t) implies contains_token(
                    matchers[0],
                    t,
                ) by {
                    assert(tokens_of(q1).contains(t));
                }
            }
            if query_matches(matchers[0], q2) {
                assert forall|t: Seq<char>| tokens_of(q1).contains(t) implies contains_token(
                    matchers[0],
                    t,
                ) by {
                    assert(tokens_of(q2).contains(t));
                }
            }
        }
    }
}

/// The filter is permutation-invariant in the tokens: two queries whose
/// token lists are rearrangements of one another filter identically.
pub proof fn lemma_search_token_permutation(
    options: Seq<Seq<char>>,
    matchers: Seq<Seq<char>>,
    q1: Seq<char>,
    q2: Seq<char>,
)
    requires
        tokens_of(q1).to_multiset() == tokens_of(q2).to_multiset(),
    ensures
        search_spec(options, matchers, q1) == search_spec(options, matchers, q2),
{
    assert forall|t: Seq<char>| tokens_of(q1).contains(t) <==> tokens_of(q2).contains(t) by {
        tokens_of(q1).to_multiset_ensures();
        tokens_of(q2).to_multiset_ensures();
        assert(tokens_of(q1).contains(t) <==> tokens_of(q1).to_multiset().count(t) > 0);
        assert(tokens_of(q2).contains(t) <==> tokens_of(q2).to_multiset().count(t) > 0);
    }
    lemma_search_token_set(options, matchers, q1, q2);
}

/// A candidate's matcher depends on its display string alone, not on its
/// position in the list nor on the other candidates.
pub proof fn lemma_matcher_position_independent(
    a: Seq<Seq<char>>,
    b: Seq<Seq<char>>,
    i: int,
    j: int,
)
    requires
        0 <= i < a.len(),
        0 <= j < b.len(),
        a[i] == b[j],
    ensures
        matchers_spec(a)[i] == matchers_spec(b)[j],
{
}

/// Collects characters into an owned string.
///
/// Relies on `String`'s `FromIterator<char>` implementation: the collected
/// string holds exactly the iterated characters, in order.
#[verifier::external_body]
fn string_from_chars(v: &Vec<char>) -> (r: String)
    ensures
        r@ == v@,
{
    v.iter().collect()
}

} // verus!
