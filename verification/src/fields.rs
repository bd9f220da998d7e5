//! Record fields: a record splits into tokens on runs of ASCII
//! whitespace; leading and trailing whitespace produce no empty fields.

use vstd::prelude::*;
use crate::strutil::push_char;

verus! {

/// True for the ASCII whitespace characters.
pub open spec fn is_ws(c: char) -> bool {
    c == ' ' || c == '\t' || c == '\n' || c == '\r' || c == '\x0c'
}

/// True for the ASCII whitespace characters.
pub fn is_ws_exec(c: char) -> (r: bool)
    ensures
        r == is_ws(c),
{
    c == ' ' || c == '\t' || c == '\n' || c == '\r' || c == '\x0c'
}

/// First position at or after `i` that ends the current token: the end of
/// the text or a whitespace character.
pub open spec fn token_end(s: Seq<char>, i: int) -> int
    decreases s.len() - i,
{
    if 0 <= i < s.len() && !is_ws(s[i]) {
        token_end(s, i + 1)
    } else {
        i
    }
}

/// A token runs to its end without leaving the text or meeting whitespace.
pub proof fn lemma_token_end_range(s: Seq<char>, i: int)
    requires
        0 <= i <= s.len(),
    ensures
        i <= token_end(s, i) <= s.len(),
        forall|m: int| i <= m < token_end(s, i) ==> !is_ws(s[m]),
    decreases s.len() - i,
{
    if 0 <= i < s.len() && !is_ws(s[i]) {
        lemma_token_end_range(s, i + 1);
    }
}

/// The whitespace-separated tokens of `s`, starting at position `i`.
pub open spec fn split_from(s: Seq<char>, i: int) -> Seq<Seq<char>>
    decreases s.len() - i
        via split_from_dec
{
    if i < 0 || i >= s.len() {
        Seq::empty()
    } else if is_ws(s[i]) {
        split_from(s, i + 1)
    } else {
        seq![s.subrange(i, token_end(s, i))] + split_from(s, token_end(s, i))
    }
}

#[via_fn]
proof fn split_from_dec(s: Seq<char>, i: int) {
    if 0 <= i < s.len() && !is_ws(s[i]) {
        lemma_token_end_range(s, i + 1);
    }
}

/// The whitespace-separated tokens of a record.
pub open spec fn split_fields(s: Seq<char>) -> Seq<Seq<char>> {
    split_from(s, 0)
}

/// Joins tokens with a single space between neighbours.
pub open spec fn join_spaces(ts: Seq<Seq<char>>) -> Seq<char>
    decreases ts.len(),
{
    if ts.len() == 0 {
        Seq::empty()
    } else if ts.len() == 1 {
        ts[0]
    } else {
        ts[0] + seq![' '] + join_spaces(ts.drop_first())
    }
}

/// A well-formed field: nonempty and free of whitespace.
pub open spec fn good_token(t: Seq<char>) -> bool {
    t.len() > 0 && (forall|m: int| 0 <= m < t.len() ==> !is_ws(t[m]))
}

/// A token ends exactly at the first whitespace or the end of the text.
pub proof fn lemma_token_end_upto(s: Seq<char>, i: int, j: int)
    requires
        0 <= i <= j <= s.len(),
        forall|k: int| i <= k < j ==> !is_ws(s[k]),
        j == s.len() || is_ws(s[j]),
    ensures
        token_end(s, i) == j,
    decreases j - i,
{
    if i < j {
        lemma_token_end_upto(s, i + 1, j);
    }
}

/// Every field that splitting yields is nonempty and free of whitespace.
pub proof fn lemma_split_tokens(s: Seq<char>, i: int)
    requires
        0 <= i <= s.len(),
    ensures
        forall|k: int| 0 <= k < split_from(s, i).len() ==> good_token(#[trigger] split_from(s, i)[k]),
    decreases s.len() - i,
{
    if 0 <= i < s.len() {
        if is_ws(s[i]) {
            lemma_split_tokens(s, i + 1);
            assert forall|k: int| 0 <= k < split_from(s, i).len() implies good_token(
                #[trigger] split_from(s, i)[k],
            ) by {
                assert(split_from(s, i)[k] == split_from(s, i + 1)[k]);
            }
        } else {
            lemma_token_end_range(s, i);
            lemma_token_end_range(s, i + 1);
            let te = token_end(s, i);
            assert(te == token_end(s, i + 1));
            lemma_split_tokens(s, te);
            let head = s.subrange(i, te);
            assert(good_token(head)) by {
                assert(head.len() == te - i >= 1);
                assert(forall|m: int| 0 <= m < head.len() ==> head[m] == s[i + m] && !is_ws(
                    s[i + m],
                ));
            }
            assert forall|k: int| 0 <= k < split_from(s, i).len() implies good_token(
                #[trigger] split_from(s, i)[k],
            ) by {
                if k == 0 {
                    assert(split_from(s, i)[0] == head);
                } else {
                    assert(split_from(s, i)[k] == split_from(s, te)[k - 1]);
                }
            }
        }
    }
}

/// Scanning for a token's end ignores anything before the scan's start.
pub proof fn lemma_token_end_shift(u: Seq<char>, v: Seq<char>, k: int)
    requires
        0 <= k <= v.len(),
    ensures
        token_end(u + v, u.len() + k) == u.len() + token_end(v, k),
    decreases v.len() - k,
{
    let w = u + v;
    if k < v.len() && !is_ws(v[k]) {
        assert(w[u.len() + k] == v[k]);
        lemma_token_end_shift(u, v, k + 1);
    } else {
        if k < v.len() {
            assert(w[u.len() + k] == v[k]);
        }
    }
}

/// Splitting ignores anything before the split's start.
pub proof fn lemma_split_from_shift(u: Seq<char>, v: Seq<char>, k: int)
    requires
        0 <= k <= v.len(),
    ensures
        split_from(u + v, u.len() + k) == split_from(v, k),
    decreases v.len() - k,
{
    let w = u + v;
    if k < v.len() {
        assert(w[u.len() + k] == v[k]);
        if is_ws(v[k]) {
            lemma_split_from_shift(u, v, k + 1);
        } else {
            lemma_token_end_shift(u, v, k);
            lemma_token_end_range(v, k);
            lemma_token_end_range(v, k + 1);
            let te = token_end(v, k);
            lemma_split_from_shift(u, v, te);
            assert(w.subrange(u.len() + k, u.len() + te) =~= v.subrange(k, te));
            assert(split_from(w, u.len() + k) =~= split_from(v, k));
        }
    } else {
        assert(split_from(w, u.len() + k) =~= split_from(v, k));
    }
}

/// Splitting the single-space join of well-formed fields gives the fields
/// back.
pub proof fn lemma_split_of_join(ts: Seq<Seq<char>>)
    requires
        forall|k: int| 0 <= k < ts.len() ==> good_token(#[trigger] ts[k]),
    ensures
        split_fields(join_spaces(ts)) == ts,
    decreases ts.len(),
{
    if ts.len() == 0 {
        assert(split_from(join_spaces(ts), 0) =~= ts);
    } else if ts.len() == 1 {
        let t = ts[0];
        assert(good_token(t));
        lemma_token_end_upto(t, 0, t.len() as int);
        assert(t.subrange(0, t.len() as int) =~= t);
        assert(join_spaces(ts) == t);
        assert(split_from(t, t.len() as int) =~= Seq::<Seq<char>>::empty());
        assert(split_from(t, 0) =~= ts);
    } else {
        let t = ts[0];
        let rest = ts.drop_first();
        assert(good_token(t));
        assert forall|k: int| 0 <= k < rest.len() implies good_token(#[trigger] rest[k]) by {
            assert(rest[k] == ts[k + 1]);
        }
        lemma_split_of_join(rest);
        let rj = join_spaces(rest);
        let w = join_spaces(ts);
        let u = t + seq![' '];
        assert(w == t + seq![' '] + rj);
        assert(w =~= u + rj);
        assert(forall|k: int| 0 <= k < t.len() ==> w[k] == t[k] && !is_ws(w[k]));
        assert(w[t.len() as int] == ' ');
        lemma_token_end_upto(w, 0, t.len() as int);
        assert(w.subrange(0, t.len() as int) =~= t);
        lemma_split_from_shift(u, rj, 0);
        assert(split_from(w, t.len() as int) == split_from(w, t.len() as int + 1));
        assert(split_from(w, t.len() as int + 1) == split_from(u + rj, u.len() as int + 0));
        assert(split_from(w, 0) =~= ts);
    }
}

/// Law: re-joining the fields of a record with single spaces and
/// splitting again yields the same fields — splitting is stable under the
/// whitespace-collapsing that the join performs.
pub proof fn lemma_split_join_round_trip(s: Seq<char>)
    ensures
        split_fields(join_spaces(split_fields(s))) == split_fields(s),
{
    lemma_split_tokens(s, 0);
    lemma_split_of_join(split_fields(s));
}

/// The ghost text of a sequence of strings.
pub open spec fn strs_view(v: Seq<String>) -> Seq<Seq<char>> {
    v.map_values(|s: String| s@)
}

/// Pushing a string extends the ghost text by its view.
pub proof fn lemma_strs_view_push(v: Seq<String>, s: String)
    ensures
        strs_view(v.push(s)) == strs_view(v).push(s@),
{
    assert(strs_view(v.push(s)) =~= strs_view(v).push(s@));
}

/// Splits a record into its whitespace-separated fields.
pub fn split_record(chars: &Vec<char>) -> (r: Vec<String>)
    ensures
        strs_view(r@) == split_fields(chars@),
{
    let len = chars.len();
    let mut out: Vec<String> = Vec::new();
    let mut i: usize = 0;
    assert(strs_view(out@) =~= Seq::<Seq<char>>::empty());
    while i < len
        invariant
            len == chars@.len(),
            i <= len,
            split_from(chars@, 0) == strs_view(out@) + split_from(chars@, i as int),
        decreases len - i,
    {
        if is_ws_exec(chars[i]) {
            i = i + 1;
        } else {
            let ghost te = token_end(chars@, i as int);
            let ghost out_entry = out@;
            let start = i;
            let mut s = String::new();
            assert(s@ =~= chars@.subrange(start as int, i as int));
            while i < len && !is_ws_exec(chars[i])
                invariant
                    len == chars@.len(),
                    start <= i <= len,
                    token_end(chars@, i as int) == te,
                    s@ == chars@.subrange(start as int, i as int),
                decreases len - i,
            {
                push_char(&mut s, chars[i]);
                assert(s@ =~= chars@.subrange(start as int, i as int + 1));
                i = i + 1;
            }
            assert(token_end(chars@, i as int) == i as int);
            proof {
                lemma_strs_view_push(out_entry, s);
                assert(split_from(chars@, start as int) == seq![
                    chars@.subrange(start as int, te),
                ] + split_from(chars@, te));
                assert(strs_view(out_entry) + split_from(chars@, start as int) =~= strs_view(
                    out_entry.push(s),
                ) + split_from(chars@, te));
            }
            out.push(s);
        }
    }
    assert(strs_view(out@) + split_from(chars@, i as int) =~= strs_view(out@));
    out
}

} // verus!
