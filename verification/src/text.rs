//! Characters, matcher keys and query tokens.
//!
//! A candidate's display string is reduced to a "matcher": its ASCII
//! alphanumeric characters, lowercased, in order. A query is reduced to
//! tokens: its maximal runs of ASCII alphanumeric characters, lowercased.

use vstd::prelude::*;

verus! {

/// A character that takes part in matching: an ASCII letter or digit.
pub open spec fn is_search_char(c: char) -> bool {
    ('a' <= c && c <= 'z') || ('A' <= c && c <= 'Z') || ('0' <= c && c <= '9')
}

/// ASCII lowercasing of a single character.
pub open spec fn normalize_char(c: char) -> char {
    if 'A' <= c && c <= 'Z' {
        (((c as u8) + 32) as char)
    } else {
        c
    }
}

/// The matcher key of a display string: its ASCII alphanumerics, lowercased,
/// keeping their order.
pub open spec fn matcher_of(s: Seq<char>) -> Seq<char> {
    s.filter(|c: char| is_search_char(c)).map_values(|c: char| normalize_char(c))
}

/// Exec mirror of [`is_search_char`].
pub fn char_is_search(c: char) -> (r: bool)
    ensures
        r == is_search_char(c),
{
    ('a' <= c && c <= 'z') || ('A' <= c && c <= 'Z') || ('0' <= c && c <= '9')
}

/// Exec mirror of [`normalize_char`].
pub fn char_normalize(c: char) -> (r: char)
    ensures
        r == normalize_char(c),
{
    if 'A' <= c && c <= 'Z' {
        ((c as u8) + 32) as char
    } else {
        c
    }
}

/// The characters of a string, in order.
pub fn chars_of(s: &str) -> (r: Vec<char>)
    ensures
        r@ == s@,
{
    let n = s.unicode_len();
    let mut r: Vec<char> = Vec::new();
    let mut i: usize = 0;
    while i < n
        invariant
            n == s@.len(),
            i <= n,
            r@ == s@.take(i as int),
        decreases n - i,
    {
        r.push(s.get_char(i));
        i = i + 1;
        proof {
            assert(r@ =~= s@.take(i as int));
        }
    }
    proof {
        assert(s@.take(n as int) =~= s@);
    }
    r
}

/// The matcher key of a display string, as characters.
pub fn matcher_chars(s: &str) -> (r: Vec<char>)
    ensures
        r@ == matcher_of(s@),
{
    let cs = chars_of(s);
    let n = cs.len();
    let mut r: Vec<char> = Vec::new();
    let mut i: usize = 0;
    while i < n
        invariant
            n == cs@.len(),
            cs@ == s@,
            i <= n,
            r@ == matcher_of(s@.take(i as int)),
        decreases n - i,
    {
        let c = cs[i];
        proof {
            let p = |c: char| is_search_char(c);
            let f = |c: char| normalize_char(c);
            assert(s@.take(i + 1).drop_last() =~= s@.take(i as int));
            assert(s@.take(i + 1).last() == s@[i as int]);
            reveal_with_fuel(Seq::filter, 2);
            if p(c) {
                assert(s@.take(i + 1).filter(p) == s@.take(i as int).filter(p).push(c));
                assert(s@.take(i as int).filter(p).push(c).map_values(f) =~= s@.take(
                    i as int,
                ).filter(p).map_values(f).push(f(c)));
            } else {
                assert(s@.take(i + 1).filter(p) == s@.take(i as int).filter(p));
            }
        }
        if char_is_search(c) {
            r.push(char_normalize(c));
        }
        i = i + 1;
    }
    proof {
        assert(s@.take(n as int) =~= s@);
    }
    r
}

/// Query tokenization, processing `q` left to right with `cur` the run of
/// normalized search characters read so far: tokens are the maximal runs of
/// search characters, lowercased. A query without search characters has no
/// tokens.
pub open spec fn tokens_rec(q: Seq<char>, cur: Seq<char>) -> Seq<Seq<char>>
    decreases q.len(),
{
    if q.len() == 0 {
        if cur.len() > 0 {
            seq![cur]
        } else {
            Seq::empty()
        }
    } else if is_search_char(q[0]) {
        tokens_rec(q.drop_first(), cur.push(normalize_char(q[0])))
    } else {
        (if cur.len() > 0 {
            seq![cur]
        } else {
            Seq::empty()
        }) + tokens_rec(q.drop_first(), Seq::empty())
    }
}

/// The tokens of a query string.
pub open spec fn tokens_of(q: Seq<char>) -> Seq<Seq<char>> {
    tokens_rec(q, Seq::empty())
}

/// The tokens of a query string, as character vectors.
pub fn tokenize(q: &str) -> (r: Vec<Vec<char>>)
    ensures
        r.deep_view() == tokens_of(q@),
{
    let cs = chars_of(q);
    let n = cs.len();
    let mut r: Vec<Vec<char>> = Vec::new();
    let mut cur: Vec<char> = Vec::new();
    let mut i: usize = 0;
    proof {
        assert(q@.skip(0) =~= q@);
        assert(r.deep_view() =~= Seq::<Seq<char>>::empty());
        assert(Seq::<Seq<char>>::empty() + tokens_rec(q@, Seq::<char>::empty()) =~= tokens_rec(
            q@,
            Seq::<char>::empty(),
        ));
    }
    while i < n
        invariant
            n == cs@.len(),
            cs@ == q@,
            i <= n,
            tokens_of(q@) == r.deep_view() + tokens_rec(q@.skip(i as int), cur@),
        decreases n - i,
    {
        let c = cs[i];
        let ghost oldr = r.deep_view();
        let ghost oldcur = cur@;
        proof {
            assert(q@.skip(i as int).drop_first() =~= q@.skip(i + 1));
            assert(q@.skip(i as int)[0] == q@[i as int]);
        }
        if char_is_search(c) {
            cur.push(char_normalize(c));
            proof {
                assert(tokens_rec(q@.skip(i as int), oldcur) == tokens_rec(q@.skip(i + 1), cur@));
            }
        } else if cur.len() > 0 {
            r.push(cur);
            cur = Vec::new();
            proof {
                assert(r.deep_view() =~~= oldr + seq![oldcur]);
                assert(tokens_rec(q@.skip(i as int), oldcur) == seq![oldcur] + tokens_rec(
                    q@.skip(i + 1),
                    cur@,
                ));
                assert(oldr + (seq![oldcur] + tokens_rec(q@.skip(i + 1), cur@)) =~= (oldr + seq![
                    oldcur,
                ]) + tokens_rec(q@.skip(i + 1), cur@));
            }
        } else {
            proof {
                assert(cur@ =~= Seq::<char>::empty());
                assert(Seq::<Seq<char>>::empty() + tokens_rec(q@.skip(i + 1), cur@) =~= tokens_rec(
                    q@.skip(i + 1),
                    cur@,
                ));
                assert(tokens_rec(q@.skip(i as int), oldcur) == tokens_rec(q@.skip(i + 1), cur@));
            }
        }
        i = i + 1;
    }
    proof {
        assert(q@.skip(n as int) =~= Seq::<char>::empty());
        assert(tokens_rec(q@.skip(n as int), cur@) == tokens_rec(Seq::<char>::empty(), cur@));
    }
    let ghost pre = r.deep_view();
    let ghost curv = cur@;
    if cur.len() > 0 {
        r.push(cur);
        proof {
            assert(r.deep_view() =~~= pre + seq![curv]);
        }
    } else {
        proof {
            assert(r.deep_view() =~~= pre + Seq::<Seq<char>>::empty());
        }
    }
    proof {
        assert(r.deep_view() == tokens_of(q@));
    }
    r
}

/// `needle` occurs in `hay` as a contiguous run.
pub open spec fn contains_token(hay: Seq<char>, needle: Seq<char>) -> bool {
    exists|i: int|
        0 <= i && i + needle.len() <= hay.len() && #[trigger] hay.subrange(i, i + needle.len())
            == needle
}

/// Whether `needle` occurs at position `i` of `hay`.
fn matches_at(hay: &Vec<char>, needle: &Vec<char>, i: usize) -> (r: bool)
    requires
        i + needle@.len() <= hay@.len(),
    ensures
        r == (hay@.subrange(i as int, i + needle@.len()) == needle@),
{
    let n = hay.len();
    let m = needle.len();
    let mut j: usize = 0;
    while j < m
        invariant
            n == hay@.len(),
            m == needle@.len(),
            i + m <= n,
            j <= m,
            forall|k: int| 0 <= k < j ==> hay@[i + k] == needle@[k],
        decreases m - j,
    {
        if hay[i + j] != needle[j] {
            proof {
                assert(hay@.subrange(i as int, i + needle@.len())[j as int] != needle@[j as int]);
            }
            return false;
        }
        j = j + 1;
    }
    proof {
        assert(hay@.subrange(i as int, i + needle@.len()) =~= needle@);
    }
    true
}

/// Exec mirror of [`contains_token`]: substring search.
pub fn contains_sub(hay: &Vec<char>, needle: &Vec<char>) -> (r: bool)
    ensures
        r == contains_token(hay@, needle@),
{
    let n = hay.len();
    let m = needle.len();
    if m > n {
        return false;
    }
    if m == 0 {
        proof {
            assert(hay@.subrange(0, 0 + needle@.len() as int) =~= needle@);
        }
        return true;
    }
    let mut i: usize = 0;
    while i <= n - m
        invariant
            n == hay@.len(),
            m == needle@.len(),
            1 <= m <= n,
            i <= n - m + 1,
            forall|k: int|
                0 <= k < i ==> #[trigger] hay@.subrange(k, k + needle@.len()) != needle@,
        decreases n - i,
    {
        if matches_at(hay, needle, i) {
            return true;
        }
        i = i + 1;
    }
    false
}

} // verus!
