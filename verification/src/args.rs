//! Argument-string handling.
//!
//! An argument string is split at single spaces and empty tokens are
//! discarded, so runs of spaces collapse and an all-space string yields no
//! arguments. The module also proves that this splitting is idempotent:
//! joining the tokens back with single spaces and splitting again yields
//! the same token sequence.

use vstd::prelude::*;

verus! {

/// Length of the leading run of non-space characters of `s`.
pub open spec fn token_len(s: Seq<char>) -> nat
    decreases s.len(),
{
    if s.len() == 0 || s[0] == ' ' {
        0
    } else {
        1 + token_len(s.skip(1))
    }
}

/// `s` split at single spaces with empty tokens discarded: the sequence
/// of maximal nonempty runs of non-space characters, in order.
pub open spec fn spec_split_args(s: Seq<char>) -> Seq<Seq<char>>
    decreases s.len(),
    via spec_split_args_decreases
{
    if s.len() == 0 {
        Seq::empty()
    } else if s[0] == ' ' {
        spec_split_args(s.skip(1))
    } else {
        seq![s.take(token_len(s) as int)] + spec_split_args(s.skip(token_len(s) as int))
    }
}

#[via_fn]
proof fn spec_split_args_decreases(s: Seq<char>) {
    if s.len() != 0 && s[0] != ' ' {
        lemma_token_len_bounds(s);
    }
}

/// The tokens joined back into one string with a single space between
/// neighbours.
pub open spec fn spec_join_args(ts: Seq<Seq<char>>) -> Seq<char>
    decreases ts.len(),
{
    if ts.len() == 0 {
        Seq::empty()
    } else if ts.len() == 1 {
        ts[0]
    } else {
        ts[0] + seq![' '] + spec_join_args(ts.skip(1))
    }
}

/// A token as splitting produces it: nonempty and free of spaces.
pub open spec fn token_ok(t: Seq<char>) -> bool {
    t.len() > 0 && (forall|j: int| 0 <= j < t.len() ==> t[j] != ' ')
}

/// Every token of the sequence is nonempty and free of spaces.
pub open spec fn tokens_ok(ts: Seq<Seq<char>>) -> bool {
    forall|i: int| 0 <= i < ts.len() ==> token_ok(#[trigger] ts[i])
}

proof fn lemma_token_len_bounds(s: Seq<char>)
    ensures
        token_len(s) <= s.len(),
        s.len() > 0 && s[0] != ' ' ==> token_len(s) >= 1,
        forall|j: int| 0 <= j < token_len(s) ==> s[j] != ' ',
        token_len(s) < s.len() ==> s[token_len(s) as int] == ' ',
    decreases s.len(),
{
    if s.len() == 0 || s[0] == ' ' {
    } else {
        lemma_token_len_bounds(s.skip(1));
        assert forall|j: int| 0 <= j < token_len(s) implies s[j] != ' ' by {
            if j > 0 {
                assert(s.skip(1)[j - 1] == s[j]);
            }
        }
        if token_len(s) < s.len() {
            assert(s.skip(1)[token_len(s) as int - 1] == s[token_len(s) as int]);
        }
    }
}

/// If the first `k` characters of `s` are non-space and position `k` is
/// the end of `s` or a space, the leading token is exactly `k` long.
proof fn lemma_token_len_is(s: Seq<char>, k: int)
    requires
        0 <= k <= s.len(),
        forall|j: int| 0 <= j < k ==> s[j] != ' ',
        k < s.len() ==> s[k] == ' ',
    ensures
        token_len(s) == k,
    decreases k,
{
    if k == 0 {
    } else {
        assert(s[0] != ' ');
        assert forall|j: int| 0 <= j < k - 1 implies s.skip(1)[j] != ' ' by {
            assert(s.skip(1)[j] == s[j + 1]);
        }
        if k - 1 < s.skip(1).len() {
            assert(s.skip(1)[k - 1] == s[k]);
        }
        lemma_token_len_is(s.skip(1), k - 1);
    }
}

/// Splitting only ever produces nonempty, space-free tokens.
pub proof fn lemma_split_tokens_ok(s: Seq<char>)
    ensures
        tokens_ok(spec_split_args(s)),
    decreases s.len(),
{
    if s.len() == 0 {
    } else if s[0] == ' ' {
        lemma_split_tokens_ok(s.skip(1));
    } else {
        lemma_token_len_bounds(s);
        let k = token_len(s) as int;
        lemma_split_tokens_ok(s.skip(k));
        let t = s.take(k);
        assert(token_ok(t)) by {
            assert(forall|j: int| 0 <= j < k ==> t[j] == s[j]);
        }
        assert forall|i: int|
            0 <= i < spec_split_args(s).len() implies token_ok(
            #[trigger] spec_split_args(s)[i],
        ) by {
            if i == 0 {
                assert(spec_split_args(s)[0] == t);
            } else {
                assert(spec_split_args(s)[i] == spec_split_args(s.skip(k))[i - 1]);
            }
        }
    }
}

/// Splitting the join of nonempty, space-free tokens recovers exactly
/// those tokens.
pub proof fn lemma_split_of_join(ts: Seq<Seq<char>>)
    requires
        tokens_ok(ts),
    ensures
        spec_split_args(spec_join_args(ts)) == ts,
    decreases ts.len(),
{
    if ts.len() == 0 {
    } else if ts.len() == 1 {
        let t = ts[0];
        assert(token_ok(t));
        assert(t[0] != ' ');
        lemma_token_len_is(t, t.len() as int);
        assert(t.take(t.len() as int) =~= t);
        assert(t.skip(t.len() as int) =~= Seq::<char>::empty());
        assert(spec_join_args(ts) == t);
        assert(spec_split_args(Seq::<char>::empty()) == Seq::<Seq<char>>::empty());
        assert(spec_split_args(t) == seq![t] + Seq::<Seq<char>>::empty());
        assert(spec_split_args(spec_join_args(ts)) =~= ts);
    } else {
        let t = ts[0];
        let rest = spec_join_args(ts.skip(1));
        let s = spec_join_args(ts);
        assert(s == t + seq![' '] + rest);
        assert(token_ok(t));
        assert forall|j: int| 0 <= j < t.len() implies s[j] != ' ' by {
            assert(s[j] == t[j]);
        }
        assert(s[0] != ' ');
        assert(s[t.len() as int] == ' ');
        lemma_token_len_is(s, t.len() as int);
        assert(s.take(t.len() as int) =~= t);
        let tail = s.skip(t.len() as int);
        assert(tail =~= seq![' '] + rest);
        assert(tail[0] == ' ');
        assert(tail.skip(1) =~= rest);
        assert(tokens_ok(ts.skip(1))) by {
            assert(forall|i: int|
                0 <= i < ts.skip(1).len() ==> #[trigger] ts.skip(1)[i] == ts[i + 1]);
        }
        lemma_split_of_join(ts.skip(1));
        assert(spec_split_args(tail) == spec_split_args(rest));
        assert(spec_split_args(s) == seq![s.take(t.len() as int)] + spec_split_args(tail));
        assert(spec_split_args(s) =~= seq![t] + spec_split_args(rest));
        assert(spec_split_args(s) =~= ts) by {
            assert(ts =~= seq![ts[0]] + ts.skip(1));
        }
    }
}

/// Splitting is idempotent: joining the tokens of `s` with single spaces
/// and splitting again yields the same token sequence.
pub proof fn lemma_split_join_split(s: Seq<char>)
    ensures
        spec_split_args(spec_join_args(spec_split_args(s))) == spec_split_args(s),
{
    lemma_split_tokens_ok(s);
    lemma_split_of_join(spec_split_args(s));
}

/// Split an argument string at single spaces, discarding empty tokens.
pub fn split_args(s: &str) -> (r: Vec<String>)
    ensures
        r@.map_values(|t: String| t@) == spec_split_args(s@),
{
    let n = s.unicode_len();
    let mut r: Vec<String> = Vec::new();
    let mut i: usize = 0;
    proof {
        assert(s@.skip(0) =~= s@);
        assert(r@.map_values(|t: String| t@) =~= Seq::<Seq<char>>::empty());
    }
    while i < n
        invariant
            n == s@.len(),
            i <= n,
            r@.map_values(|t: String| t@) + spec_split_args(s@.skip(i as int)) =~= spec_split_args(
                s@,
            ),
        decreases n - i,
    {
        let c = s.get_char(i);
        if c == ' ' {
            proof {
                assert(s@.skip(i as int)[0] == ' ');
                assert(s@.skip(i as int).skip(1) =~= s@.skip(i as int + 1));
            }
            i = i + 1;
        } else {
            let ghost prefix = r@.map_values(|t: String| t@);
            let start = i;
            i = i + 1;
            while i < n && s.get_char(i) != ' '
                invariant
                    n == s@.len(),
                    start < i <= n,
                    forall|j: int| start <= j < i ==> s@[j] != ' ',
                decreases n - i,
            {
                i = i + 1;
            }
            let tok = s.substring_char(start, i);
            proof {
                let u = s@.skip(start as int);
                assert forall|j: int| 0 <= j < i - start implies u[j] != ' ' by {
                    assert(u[j] == s@[start + j]);
                }
                if i - start < u.len() {
                    assert(u[i - start as int] == s@[i as int]);
                }
                lemma_token_len_is(u, i - start as int);
                assert(u.take(i - start as int) =~= s@.subrange(start as int, i as int));
                assert(u.skip(i - start as int) =~= s@.skip(i as int));
                assert(spec_split_args(u) == seq![s@.subrange(start as int, i as int)]
                    + spec_split_args(s@.skip(i as int)));
            }
            r.push(tok.to_owned());
            proof {
                assert(r@.map_values(|t: String| t@) =~= prefix.push(
                    s@.subrange(start as int, i as int),
                ));
                assert(r@.map_values(|t: String| t@) + spec_split_args(s@.skip(i as int))
                    =~= prefix + spec_split_args(s@.skip(start as int)));
            }
        }
    }
    proof {
        assert(s@.skip(n as int) =~= Seq::<char>::empty());
        assert(r@.map_values(|t: String| t@) =~= spec_split_args(s@));
    }
    r
}

/// `spec_join_args` of a sequence extended by one token.
proof fn lemma_join_push(ts: Seq<Seq<char>>, t: Seq<char>)
    ensures
        ts.len() == 0 ==> spec_join_args(ts.push(t)) == t,
        ts.len() > 0 ==> spec_join_args(ts.push(t)) == spec_join_args(ts) + seq![' '] + t,
    decreases ts.len(),
{
    if ts.len() == 0 {
        assert(ts.push(t)[0] == t);
    } else if ts.len() == 1 {
        assert(ts.push(t).skip(1) =~= seq![t]);
        assert(ts.push(t)[0] == ts[0]);
        assert(seq![t][0] == t);
        assert(spec_join_args(seq![t]) == t);
        assert(spec_join_args(ts.push(t)) == ts[0] + seq![' '] + t);
        assert(spec_join_args(ts) == ts[0]);
    } else {
        lemma_join_push(ts.skip(1), t);
        assert(ts.push(t).skip(1) =~= ts.skip(1).push(t));
        assert(spec_join_args(ts.push(t)) == ts[0] + seq![' '] + spec_join_args(ts.skip(1).push(t)));
        assert(ts[0] + seq![' '] + (spec_join_args(ts.skip(1)) + seq![' '] + t) =~= (ts[0] + seq![' ']
            + spec_join_args(ts.skip(1))) + seq![' '] + t);
    }
}

/// Join tokens into one string with a single space between neighbours.
pub fn join_args(tokens: &Vec<String>) -> (r: String)
    ensures
        r@ == spec_join_args(tokens@.map_values(|t: String| t@)),
{
    let ghost views = tokens@.map_values(|t: String| t@);
    let mut r = String::new();
    let mut k: usize = 0;
    while k < tokens.len()
        invariant
            views == tokens@.map_values(|t: String| t@),
            k <= tokens@.len(),
            r@ == spec_join_args(views.take(k as int)),
        decreases tokens@.len() - k,
    {
        if k > 0 {
            r.append(" ");
            proof {
                reveal_strlit(" ");
                assert(" "@ =~= seq![' ']);
            }
        }
        r.append(tokens[k].as_str());
        proof {
            lemma_join_push(views.take(k as int), views[k as int]);
            assert(views.take(k as int + 1) =~= views.take(k as int).push(views[k as int]));
            if k == 0 {
                assert(r@ =~= views[0]);
            } else {
                assert(r@ =~= spec_join_args(views.take(k as int)) + seq![' '] + views[k as int]);
            }
        }
        k = k + 1;
    }
    proof {
        assert(views.take(tokens@.len() as int) =~= views);
    }
    r
}

} // verus!
