//! Extraction of `key=value` parameters from a location string, and
//! first-occurrence lookup over the extracted pairs.
//!
//! The parameter area is the text after the first `?`, or, when the string
//! has no `?`, after the first `#`; with neither delimiter there are no
//! parameters. The area splits on `&` into tokens; a token with an `=`
//! yields the pair (text before the first `=`, text after it), and a token
//! without `=` yields nothing. Keys and values are taken verbatim: no
//! percent-decoding, no trimming.

use vstd::prelude::*;

verus! {

/// Index of the first occurrence of `c` in `s`, if any.
pub open spec fn find_ch(s: Seq<char>, c: char) -> Option<int>
    decreases s.len(),
{
    if s.len() == 0 {
        None
    } else if s[0] == c {
        Some(0)
    } else {
        match find_ch(s.drop_first(), c) {
            None => None,
            Some(i) => Some(i + 1),
        }
    }
}

pub proof fn lemma_find_ch_absent(s: Seq<char>, c: char)
    requires
        forall|k: int| 0 <= k < s.len() ==> s[k] != c,
    ensures
        find_ch(s, c) is None,
    decreases s.len(),
{
    if s.len() > 0 {
        assert(forall|k: int| 0 <= k < s.drop_first().len() ==> s.drop_first()[k] == s[k + 1]);
        lemma_find_ch_absent(s.drop_first(), c);
    }
}

pub proof fn lemma_find_ch_at(s: Seq<char>, c: char, i: int)
    requires
        0 <= i < s.len(),
        s[i] == c,
        forall|k: int| 0 <= k < i ==> s[k] != c,
    ensures
        find_ch(s, c) == Some(i),
    decreases i,
{
    if i > 0 {
        assert(forall|k: int| 0 <= k < s.drop_first().len() ==> s.drop_first()[k] == s[k + 1]);
        lemma_find_ch_at(s.drop_first(), c, i - 1);
    }
}

/// Everything `find_ch` guarantees about its result, in one statement.
pub proof fn lemma_find_ch_range(s: Seq<char>, c: char)
    ensures
        match find_ch(s, c) {
            Some(i) => 0 <= i < s.len() && s[i] == c && forall|k: int| 0 <= k < i ==> s[k] != c,
            None => forall|k: int| 0 <= k < s.len() ==> s[k] != c,
        },
    decreases s.len(),
{
    if s.len() > 0 && s[0] != c {
        let s1 = s.drop_first();
        lemma_find_ch_range(s1, c);
        assert(forall|k: int| 0 <= k < s1.len() ==> s1[k] == s[k + 1]);
        match find_ch(s1, c) {
            Some(j) => {
                assert forall|k: int| 0 <= k < j + 1 implies s[k] != c by {
                    if k > 0 {
                        assert(s1[k - 1] != c);
                    }
                }
            },
            None => {
                assert forall|k: int| 0 <= k < s.len() implies s[k] != c by {
                    if k > 0 {
                        assert(s1[k - 1] != c);
                    }
                }
            },
        }
    }
}

/// The tokens of `s`: the pieces between occurrences of `sep`, in order,
/// kept even when empty. A string without `sep` is one token.
pub open spec fn split_on(s: Seq<char>, sep: char) -> Seq<Seq<char>>
    decreases s.len(),
    via split_on_decreases
{
    match find_ch(s, sep) {
        None => seq![s],
        Some(i) => seq![s.take(i)] + split_on(s.skip(i + 1), sep),
    }
}

#[via_fn]
proof fn split_on_decreases(s: Seq<char>, sep: char) {
    lemma_find_ch_range(s, sep);
}

/// The pair a token yields: the text before the first `=` as the key and
/// everything after it as the value, or nothing for a token without `=`.
pub open spec fn token_pair(t: Seq<char>) -> Option<(Seq<char>, Seq<char>)> {
    match find_ch(t, '=') {
        None => None,
        Some(i) => Some((t.take(i), t.skip(i + 1))),
    }
}

/// The pairs the tokens yield, in token order, tokens without `=` dropped.
pub open spec fn pairs_of_tokens(ts: Seq<Seq<char>>) -> Seq<(Seq<char>, Seq<char>)>
    decreases ts.len(),
{
    if ts.len() == 0 {
        Seq::empty()
    } else {
        match token_pair(ts[0]) {
            None => pairs_of_tokens(ts.drop_first()),
            Some(p) => seq![p] + pairs_of_tokens(ts.drop_first()),
        }
    }
}

/// The parameter area of a location string: the text after the first `?`,
/// or after the first `#` when there is no `?`, or nothing.
pub open spec fn param_part(s: Seq<char>) -> Option<Seq<char>> {
    match find_ch(s, '?') {
        Some(i) => Some(s.skip(i + 1)),
        None => match find_ch(s, '#') {
            Some(j) => Some(s.skip(j + 1)),
            None => None,
        },
    }
}

/// All `key=value` pairs of a location string, in order of appearance.
pub open spec fn extract_pairs_spec(s: Seq<char>) -> Seq<(Seq<char>, Seq<char>)> {
    match param_part(s) {
        None => Seq::empty(),
        Some(q) => pairs_of_tokens(split_on(q, '&')),
    }
}

/// A location string without `?` and without `#` yields no pairs at all.
pub proof fn lemma_no_delimiter_no_pairs(s: Seq<char>)
    requires
        forall|k: int| 0 <= k < s.len() ==> s[k] != '?' && s[k] != '#',
    ensures
        extract_pairs_spec(s) == Seq::<(Seq<char>, Seq<char>)>::empty(),
{
    lemma_find_ch_absent(s, '?');
    lemma_find_ch_absent(s, '#');
}

/// A token without `=` contributes no pair: dropping it from a token
/// sequence leaves the extracted pairs unchanged.
pub proof fn lemma_token_without_eq_dropped(ts: Seq<Seq<char>>, i: int)
    requires
        0 <= i < ts.len(),
        forall|k: int| 0 <= k < ts[i].len() ==> ts[i][k] != '=',
    ensures
        pairs_of_tokens(ts) == pairs_of_tokens(ts.remove(i)),
    decreases ts.len(),
{
    lemma_find_ch_absent(ts[i], '=');
    if i == 0 {
        assert(ts.remove(0) =~= ts.drop_first());
    } else {
        let t1 = ts.drop_first();
        assert(forall|k: int| 0 <= k < t1.len() ==> t1[k] == ts[k + 1]);
        lemma_token_without_eq_dropped(t1, i - 1);
        assert(ts.remove(i)[0] == ts[0]);
        assert(ts.remove(i).drop_first() =~= t1.remove(i - 1));
    }
}

/// First occurrence of `c` in `s`, scanning left to right.
pub fn find_char(s: &str, c: char) -> (r: Option<usize>)
    ensures
        match r {
            Some(i) => find_ch(s@, c) == Some(i as int),
            None => find_ch(s@, c) is None,
        },
{
    let n = s.unicode_len();
    let mut i: usize = 0;
    while i < n
        invariant
            0 <= i <= n,
            n == s@.len(),
            forall|k: int| 0 <= k < i ==> s@[k] != c,
        decreases n - i,
    {
        if s.get_char(i) == c {
            proof {
                lemma_find_ch_at(s@, c, i as int);
            }
            return Some(i);
        }
        i = i + 1;
    }
    proof {
        lemma_find_ch_absent(s@, c);
    }
    None
}

/// Split a token at its first `=` into an owned (key, value) pair.
fn split_token(t: &str) -> (r: Option<(String, String)>)
    ensures
        match r {
            None => token_pair(t@) is None,
            Some(p) => token_pair(t@) == Some((p.0@, p.1@)),
        },
{
    match find_char(t, '=') {
        None => None,
        Some(i) => {
            proof {
                lemma_find_ch_range(t@, '=');
            }
            let n = t.unicode_len();
            let k = t.substring_char(0, i).to_owned();
            let v = t.substring_char(i + 1, n).to_owned();
            Some((k, v))
        },
    }
}

proof fn lemma_pairs_of_cons(t: Seq<char>, ts: Seq<Seq<char>>)
    ensures
        pairs_of_tokens(seq![t] + ts) == match token_pair(t) {
            None => pairs_of_tokens(ts),
            Some(p) => seq![p] + pairs_of_tokens(ts),
        },
{
    let c = seq![t] + ts;
    assert(c[0] == t);
    assert(c.drop_first() =~= ts);
}

/// Append the pairs of the `&`-separated tokens of `qs` to `acc`.
fn tokens_to_pairs(qs: &str, acc: &mut Vec<(String, String)>)
    ensures
        final(acc).deep_view() == old(acc).deep_view() + pairs_of_tokens(split_on(qs@, '&')),
    decreases qs@.len(),
{
    let ghost acc0 = acc.deep_view();
    match find_char(qs, '&') {
        None => {
            proof {
                assert(split_on(qs@, '&') == seq![qs@]);
                assert(seq![qs@].drop_first() =~= Seq::<Seq<char>>::empty());
                assert(pairs_of_tokens(Seq::<Seq<char>>::empty()) =~= Seq::<(
                    Seq<char>,
                    Seq<char>,
                )>::empty());
            }
            match split_token(qs) {
                None => {
                    proof {
                        assert(acc.deep_view() =~= acc0 + pairs_of_tokens(split_on(qs@, '&')));
                    }
                },
                Some(p) => {
                    acc.push(p);
                    proof {
                        assert(acc.deep_view() =~= acc0 + pairs_of_tokens(split_on(qs@, '&')));
                    }
                },
            }
        },
        Some(i) => {
            proof {
                lemma_find_ch_range(qs@, '&');
            }
            let n = qs.unicode_len();
            let tok = qs.substring_char(0, i);
            let rest = qs.substring_char(i + 1, n);
            proof {
                assert(tok@ =~= qs@.take(i as int));
                assert(rest@ =~= qs@.skip(i + 1));
                lemma_pairs_of_cons(tok@, split_on(rest@, '&'));
                assert(split_on(qs@, '&') == seq![tok@] + split_on(rest@, '&'));
            }
            match split_token(tok) {
                None => {},
                Some(p) => {
                    let ghost pv = (p.0@, p.1@);
                    let ghost before = acc.deep_view();
                    acc.push(p);
                    proof {
                        assert(acc.deep_view() =~= before.push(pv));
                    }
                },
            }
            tokens_to_pairs(rest, acc);
            proof {
                assert(acc.deep_view() =~= acc0 + pairs_of_tokens(split_on(qs@, '&')));
            }
        },
    }
}

/// Extract the `key=value` pairs of a location string, in order: the text
/// after the first `?` (or, without one, after the first `#`) split on `&`,
/// each token split at its first `=`; tokens without `=` are dropped, and a
/// string with neither delimiter yields no pairs.
pub fn extract_pairs(location: &str) -> (r: Vec<(String, String)>)
    ensures
        r.deep_view() == extract_pairs_spec(location@),
{
    let n = location.unicode_len();
    let part: Option<&str> = match find_char(location, '?') {
        Some(i) => {
            proof {
                lemma_find_ch_range(location@, '?');
            }
            Some(location.substring_char(i + 1, n))
        },
        None => match find_char(location, '#') {
            Some(j) => {
                proof {
                    lemma_find_ch_range(location@, '#');
                }
                Some(location.substring_char(j + 1, n))
            },
            None => None,
        },
    };
    match part {
        None => {
            let r: Vec<(String, String)> = Vec::new();
            proof {
                assert(r.deep_view() =~= extract_pairs_spec(location@));
            }
            r
        },
        Some(q) => {
            proof {
                assert(q@ =~= param_part(location@)->Some_0);
            }
            let mut acc: Vec<(String, String)> = Vec::new();
            tokens_to_pairs(q, &mut acc);
            proof {
                assert(acc.deep_view() =~= extract_pairs_spec(location@));
            }
            acc
        },
    }
}

/// The value of the first pair whose key is `key`, if any.
pub open spec fn lookup_spec(ps: Seq<(Seq<char>, Seq<char>)>, key: Seq<char>) -> Option<Seq<char>>
    decreases ps.len(),
{
    if ps.len() == 0 {
        None
    } else if ps[0].0 == key {
        Some(ps[0].1)
    } else {
        lookup_spec(ps.drop_first(), key)
    }
}

/// Look up the first pair whose key equals `key` exactly (case-sensitive)
/// and return a copy of its value; later pairs with the same key are ignored.
pub fn lookup_first(params: &Vec<(String, String)>, key: &str) -> (r: Option<String>)
    ensures
        r.deep_view() == lookup_spec(params.deep_view(), key@),
{
    let key_s = key.to_owned();
    let n = params.len();
    proof {
        assert(params.deep_view().skip(0) =~= params.deep_view());
    }
    let mut i: usize = 0;
    while i < n
        invariant
            0 <= i <= n,
            n == params@.len(),
            key_s@ == key@,
            lookup_spec(params.deep_view().skip(i as int), key@) == lookup_spec(
                params.deep_view(),
                key@,
            ),
        decreases n - i,
    {
        let ghost dv = params.deep_view();
        let p = &params[i];
        proof {
            assert(dv.skip(i as int)[0] == dv[i as int]);
        }
        if p.0 == key_s {
            return Some(p.1.clone());
        }
        proof {
            assert(dv.skip(i as int).drop_first() =~= dv.skip(i + 1));
        }
        i = i + 1;
    }
    proof {
        assert(params.deep_view().skip(n as int) =~= Seq::<(Seq<char>, Seq<char>)>::empty());
    }
    None
}

/// The first pair with the key decides the lookup.
pub proof fn lemma_lookup_first_occurrence(
    ps: Seq<(Seq<char>, Seq<char>)>,
    key: Seq<char>,
    i: int,
)
    requires
        0 <= i < ps.len(),
        ps[i].0 == key,
        forall|k: int| 0 <= k < i ==> ps[k].0 != key,
    ensures
        lookup_spec(ps, key) == Some(ps[i].1),
    decreases i,
{
    if i > 0 {
        let p1 = ps.drop_first();
        assert(forall|k: int| 0 <= k < p1.len() ==> p1[k] == ps[k + 1]);
        lemma_lookup_first_occurrence(p1, key, i - 1);
    }
}

/// A pair whose key already occurred earlier is ignored: removing it
/// leaves the lookup of that key unchanged.
pub proof fn lemma_later_duplicate_ignored(
    ps: Seq<(Seq<char>, Seq<char>)>,
    key: Seq<char>,
    i: int,
    j: int,
)
    requires
        0 <= i < j < ps.len(),
        ps[i].0 == key,
        ps[j].0 == key,
    ensures
        lookup_spec(ps, key) == lookup_spec(ps.remove(j), key),
    decreases ps.len(),
{
    assert(ps.remove(j)[0] == ps[0]);
    if ps[0].0 == key {
    } else {
        let p1 = ps.drop_first();
        assert(forall|k: int| 0 <= k < p1.len() ==> p1[k] == ps[k + 1]);
        lemma_later_duplicate_ignored(p1, key, i - 1, j - 1);
        assert(ps.remove(j).drop_first() =~= p1.remove(j - 1));
    }
}

} // verus!
