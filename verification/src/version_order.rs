//! Ordering of raw version strings by Hackage (PVP) precedence.
//!
//! The precedence of two parseable version strings is delegated to the
//! `versions` crate; strings that the crate cannot parse at all sort before
//! parseable ones and among themselves by plain lexical comparison of their
//! characters, so that no input is ever dropped and the order is total and
//! deterministic.

use vstd::prelude::*;

verus! {

/// Whether the `versions` crate can parse this string as a version.
pub uninterp spec fn is_version(s: Seq<char>) -> bool;

/// The precedence relation of the `versions` crate on two parseable version
/// strings: `a` sorts at or before `b`.
pub uninterp spec fn version_le(a: Seq<char>, b: Seq<char>) -> bool;

/// Relies on `versions::Versioning::new`: whether a string parses as a
/// version depends on its characters alone.
#[verifier::external_body]
fn parses_as_version(s: &str) -> (r: bool)
    ensures
        r == is_version(s@),
{
    versions::Versioning::new(s).is_some()
}

/// Relies on `versions::Versioning::new` and the `Ord` impl of
/// `versions::Versioning` (the two cannot be split: the parsed value is
/// opaque here). Which of two parseable strings precedes the other depends on
/// their characters alone, and `Ord` is documented as a total order, so at
/// least one of the two directions holds.
#[verifier::external_body]
fn parsed_le(a: &str, b: &str) -> (r: bool)
    requires
        is_version(a@),
        is_version(b@),
    ensures
        r == version_le(a@, b@),
        r || version_le(b@, a@),
{
    versions::Versioning::new(a).unwrap() <= versions::Versioning::new(b).unwrap()
}

/// Plain lexical comparison of character sequences: the fallback order for
/// strings that do not parse as versions.
pub open spec fn lex_le(a: Seq<char>, b: Seq<char>) -> bool
    decreases a.len(),
{
    if a.len() == 0 {
        true
    } else if b.len() == 0 {
        false
    } else if a[0] != b[0] {
        (a[0] as int) < (b[0] as int)
    } else {
        lex_le(a.skip(1), b.skip(1))
    }
}

/// The order used on raw version strings: strings the `versions` crate cannot
/// parse sort before parseable ones and among themselves lexically; parseable
/// strings sort by the crate's precedence. The last branch is phrased so that
/// the relation is total whatever the outside order does; it coincides with
/// `version_le` because that order is total.
pub open spec fn vle(a: Seq<char>, b: Seq<char>) -> bool {
    if !is_version(a) && !is_version(b) {
        lex_le(a, b)
    } else if !is_version(a) {
        true
    } else if !is_version(b) {
        false
    } else {
        version_le(a, b) || !version_le(b, a)
    }
}

pub proof fn lemma_lex_le_total(a: Seq<char>, b: Seq<char>)
    ensures
        lex_le(a, b) || lex_le(b, a),
    decreases a.len(),
{
    if a.len() != 0 && b.len() != 0 && a[0] == b[0] {
        lemma_lex_le_total(a.skip(1), b.skip(1));
    }
}

/// The order on raw version strings is total.
pub proof fn lemma_vle_total(a: Seq<char>, b: Seq<char>)
    ensures
        vle(a, b) || vle(b, a),
{
    if !is_version(a) && !is_version(b) {
        lemma_lex_le_total(a, b);
    }
}

/// Decides `vle` on two version strings.
pub fn le_version(a: &str, b: &str) -> (r: bool)
    ensures
        r == vle(a@, b@),
{
    let pa = parses_as_version(a);
    let pb = parses_as_version(b);
    if !pa && !pb {
        lex_le_exec(a, b)
    } else if !pa {
        true
    } else if !pb {
        false
    } else {
        parsed_le(a, b)
    }
}

/// Decides `lex_le` by walking both strings.
fn lex_le_exec(a: &str, b: &str) -> (r: bool)
    ensures
        r == lex_le(a@, b@),
{
    let a_len = a.unicode_len();
    let b_len = b.unicode_len();
    let mut i: usize = 0;
    proof {
        assert(a@.skip(0) =~= a@);
        assert(b@.skip(0) =~= b@);
    }
    loop
        invariant
            i <= a_len,
            i <= b_len,
            a_len == a@.len(),
            b_len == b@.len(),
            lex_le(a@, b@) == lex_le(a@.skip(i as int), b@.skip(i as int)),
        decreases a_len - i,
    {
        proof {
            lemma_lex_le_skip(a@, b@, i as int);
        }
        if i == a_len {
            return true;
        }
        if i == b_len {
            return false;
        }
        let ca = a.get_char(i);
        let cb = b.get_char(i);
        if ca != cb {
            return (ca as u32) < (cb as u32);
        }
        i = i + 1;
    }
}

/// `lex_le` after skipping an equal prefix: one unfolding step, stated at an
/// arbitrary position so the loop above can carry it as an invariant.
proof fn lemma_lex_le_skip(a: Seq<char>, b: Seq<char>, i: int)
    requires
        0 <= i <= a.len(),
        0 <= i <= b.len(),
    ensures
        i < a.len() && i < b.len() && a[i] == b[i] ==> lex_le(a.skip(i), b.skip(i)) == lex_le(
            a.skip(i + 1),
            b.skip(i + 1),
        ),
        i == a.len() ==> lex_le(a.skip(i), b.skip(i)),
        i == b.len() && i < a.len() ==> !lex_le(a.skip(i), b.skip(i)),
        i < a.len() && i < b.len() && a[i] != b[i] ==> lex_le(a.skip(i), b.skip(i)) == ((a[i] as int)
            < (b[i] as int)),
{
    let sa = a.skip(i);
    let sb = b.skip(i);
    if i < a.len() && i < b.len() {
        assert(sa.len() != 0 && sb.len() != 0);
        assert(sa[0] == a[i]);
        assert(sb[0] == b[i]);
        assert(sa.skip(1) =~= a.skip(i + 1));
        assert(sb.skip(1) =~= b.skip(i + 1));
    }
}

/// The views of a sequence of strings.
pub open spec fn views(s: Seq<String>) -> Seq<Seq<char>> {
    s.map_values(|x: String| x@)
}

/// Ascending under `vle`: each element is at or before its successor.
pub open spec fn sorted(s: Seq<Seq<char>>) -> bool {
    forall|i: int| 0 <= i < s.len() - 1 ==> #[trigger] vle(s[i], s[i + 1])
}

/// Insert `x` into `s` from the back: `x` goes after every trailing element
/// that sorts at or before it, so an element inserted later never jumps ahead
/// of an equal one inserted earlier (stability).
pub open spec fn insert_sorted(x: Seq<char>, s: Seq<Seq<char>>) -> Seq<Seq<char>>
    decreases s.len(),
{
    if s.len() == 0 {
        seq![x]
    } else if vle(s.last(), x) {
        s.push(x)
    } else {
        insert_sorted(x, s.drop_last()).push(s.last())
    }
}

/// The ordered form of a raw sequence of version strings: a stable insertion
/// sort under `vle`, taking the raw elements in their given order.
pub open spec fn spec_order(s: Seq<Seq<char>>) -> Seq<Seq<char>>
    decreases s.len(),
{
    if s.len() == 0 {
        Seq::empty()
    } else {
        insert_sorted(s.last(), spec_order(s.drop_last()))
    }
}

proof fn lemma_insert_sorted_multiset(x: Seq<char>, s: Seq<Seq<char>>)
    ensures
        insert_sorted(x, s).to_multiset() == s.to_multiset().insert(x),
    decreases s.len(),
{
    broadcast use vstd::seq_lib::group_to_multiset_ensures;

    if s.len() == 0 {
        assert(seq![x] =~= Seq::empty().push(x));
    } else if vle(s.last(), x) {
    } else {
        lemma_insert_sorted_multiset(x, s.drop_last());
        assert(s.drop_last().push(s.last()) =~= s);
    }
}

proof fn lemma_insert_sorted_last(x: Seq<char>, s: Seq<Seq<char>>)
    ensures
        insert_sorted(x, s).len() == s.len() + 1,
        insert_sorted(x, s).last() == x || insert_sorted(x, s).last() == s.last(),
    decreases s.len(),
{
    if s.len() == 0 || vle(s.last(), x) {
    } else {
        lemma_insert_sorted_last(x, s.drop_last());
    }
}

proof fn lemma_insert_sorted_sorted(x: Seq<char>, s: Seq<Seq<char>>)
    requires
        sorted(s),
    ensures
        sorted(insert_sorted(x, s)),
    decreases s.len(),
{
    if s.len() == 0 {
    } else if vle(s.last(), x) {
        let r = s.push(x);
        assert forall|i: int| 0 <= i < r.len() - 1 implies #[trigger] vle(r[i], r[i + 1]) by {
            if i < s.len() - 1 {
                assert(vle(s[i], s[i + 1]));
            }
        }
    } else {
        let front = s.drop_last();
        assert(sorted(front)) by {
            assert forall|i: int| 0 <= i < front.len() - 1 implies #[trigger] vle(front[i], front[i + 1]) by {
                assert(vle(s[i], s[i + 1]));
            }
        }
        lemma_insert_sorted_sorted(x, front);
        lemma_insert_sorted_last(x, front);
        lemma_vle_total(s.last(), x);
        let inner = insert_sorted(x, front);
        let r = inner.push(s.last());
        assert forall|i: int| 0 <= i < r.len() - 1 implies #[trigger] vle(r[i], r[i + 1]) by {
            if i < inner.len() - 1 {
                assert(vle(inner[i], inner[i + 1]));
            } else {
                assert(r[i] == inner.last());
                assert(r[i + 1] == s.last());
                if inner.last() == x {
                    assert(vle(x, s.last()));
                } else {
                    assert(inner.last() == front.last());
                    assert(front.len() >= 1);
                    let n = s.len() as int;
                    assert(vle(s[n - 2], s[n - 2 + 1]));
                    assert(vle(front.last(), s.last()));
                }
            }
        }
    }
}

/// The ordered form is ascending under `vle`.
pub proof fn lemma_order_sorted(s: Seq<Seq<char>>)
    ensures
        sorted(spec_order(s)),
    decreases s.len(),
{
    if s.len() > 0 {
        lemma_order_sorted(s.drop_last());
        lemma_insert_sorted_sorted(s.last(), spec_order(s.drop_last()));
    }
}

/// The ordered form has exactly as many entries as its input.
pub proof fn lemma_order_len(s: Seq<Seq<char>>)
    ensures
        spec_order(s).len() == s.len(),
    decreases s.len(),
{
    if s.len() > 0 {
        lemma_order_len(s.drop_last());
        lemma_insert_sorted_last(s.last(), spec_order(s.drop_last()));
    }
}

/// The ordered form is a permutation of its input: no element is dropped,
/// added, or duplicated beyond what the input holds.
pub proof fn lemma_order_permutation(s: Seq<Seq<char>>)
    ensures
        spec_order(s).to_multiset() == s.to_multiset(),
    decreases s.len(),
{
    broadcast use vstd::seq_lib::group_to_multiset_ensures;

    if s.len() > 0 {
        lemma_order_permutation(s.drop_last());
        lemma_insert_sorted_multiset(s.last(), spec_order(s.drop_last()));
        assert(s.drop_last().push(s.last()) =~= s);
    }
}

/// Sorting a sequence that is already ascending leaves it unchanged.
pub proof fn lemma_order_fixes_sorted(s: Seq<Seq<char>>)
    requires
        sorted(s),
    ensures
        spec_order(s) == s,
    decreases s.len(),
{
    if s.len() > 0 {
        let front = s.drop_last();
        assert(sorted(front)) by {
            assert forall|i: int| 0 <= i < front.len() - 1 implies #[trigger] vle(front[i], front[i + 1]) by {
                assert(vle(s[i], s[i + 1]));
            }
        }
        lemma_order_fixes_sorted(front);
        if front.len() == 0 {
            assert(insert_sorted(s.last(), front) =~= s);
        } else {
            let n = s.len() as int;
            assert(vle(s[n - 2], s[n - 2 + 1]));
            assert(vle(front.last(), s.last()));
            assert(front.push(s.last()) =~= s);
        }
    }
}

/// Ordering is idempotent: sorting the ordered form again returns it as it is.
pub proof fn lemma_order_idempotent(s: Seq<Seq<char>>)
    ensures
        spec_order(spec_order(s)) == spec_order(s),
{
    lemma_order_sorted(s);
    lemma_order_fixes_sorted(spec_order(s));
}

/// Ordering is deterministic: equal inputs give equal outputs, so sorting
/// twice with the same input yields identical output.
pub proof fn lemma_order_deterministic(s: Seq<Seq<char>>, t: Seq<Seq<char>>)
    requires
        s == t,
    ensures
        spec_order(s) == spec_order(t),
{
}

/// Where `insert_sorted` puts the new element, named by index: directly after
/// the last element that sorts at or before it.
proof fn lemma_insert_sorted_at(x: Seq<char>, s: Seq<Seq<char>>, j: int)
    requires
        0 <= j <= s.len(),
        forall|k: int| j <= k < s.len() ==> !vle(#[trigger] s[k], x),
        j > 0 ==> vle(s[j - 1], x),
    ensures
        insert_sorted(x, s) == s.subrange(0, j) + seq![x] + s.subrange(j, s.len() as int),
    decreases s.len(),
{
    if s.len() == 0 {
        assert(insert_sorted(x, s) =~= s.subrange(0, j) + seq![x] + s.subrange(j, s.len() as int));
    } else if vle(s.last(), x) {
        assert(j == s.len());
        assert(s.push(x) =~= s.subrange(0, j) + seq![x] + s.subrange(j, s.len() as int));
    } else {
        assert(j < s.len());
        let front = s.drop_last();
        lemma_insert_sorted_at(x, front, j);
        assert(front.subrange(0, j) =~= s.subrange(0, j));
        assert((front.subrange(0, j) + seq![x] + front.subrange(j, front.len() as int)).push(
            s.last(),
        ) =~= s.subrange(0, j) + seq![x] + s.subrange(j, s.len() as int));
    }
}

/// Stability of the tie-break: inserting an element moves it ahead of
/// exactly those elements that sort strictly after it, so an element never
/// jumps ahead of an earlier one of equal precedence — equal-precedence
/// entries retain their original relative order.
pub proof fn lemma_insert_sorted_stable(x: Seq<char>, s: Seq<Seq<char>>)
    ensures
        exists|j: int|
            {
                &&& 0 <= j <= s.len()
                &&& insert_sorted(x, s) == s.subrange(0, j) + seq![x] + s.subrange(
                    j,
                    s.len() as int,
                )
                &&& forall|k: int| j <= k < s.len() ==> !vle(#[trigger] s[k], x)
            },
    decreases s.len(),
{
    if s.len() == 0 {
        assert(insert_sorted(x, s) =~= s.subrange(0, 0) + seq![x] + s.subrange(0, 0));
    } else if vle(s.last(), x) {
        let j = s.len() as int;
        assert(s.push(x) =~= s.subrange(0, j) + seq![x] + s.subrange(j, j));
    } else {
        let front = s.drop_last();
        lemma_insert_sorted_stable(x, front);
        let j = choose|j: int|
            {
                &&& 0 <= j <= front.len()
                &&& insert_sorted(x, front) == front.subrange(0, j) + seq![x] + front.subrange(
                    j,
                    front.len() as int,
                )
                &&& forall|k: int| j <= k < front.len() ==> !vle(#[trigger] front[k], x)
            };
        assert(front.subrange(0, j) =~= s.subrange(0, j));
        assert((front.subrange(0, j) + seq![x] + front.subrange(j, front.len() as int)).push(
            s.last(),
        ) =~= s.subrange(0, j) + seq![x] + s.subrange(j, s.len() as int));
        assert forall|k: int| j <= k < s.len() implies !vle(#[trigger] s[k], x) by {
            if k < s.len() - 1 {
                assert(!vle(front[k], x));
            }
        }
    }
}

/// Sorts raw version strings ascending under `vle` with a stable insertion
/// sort: the result is exactly the ordered form `spec_order` of the input.
pub fn order(raw: Vec<String>) -> (r: Vec<String>)
    ensures
        views(r@) == spec_order(views(raw@)),
        r@.len() == raw@.len(),
{
    let ghost all = views(raw@);
    let mut rest = raw;
    let mut out: Vec<String> = Vec::new();
    let ghost done: Seq<Seq<char>> = Seq::empty();
    proof {
        assert(all =~= done + views(rest@));
        assert(views(out@) =~= spec_order(done));
    }
    while rest.len() > 0
        invariant
            all == done + views(rest@),
            views(out@) == spec_order(done),
        decreases rest@.len(),
    {
        let ghost prev_out = views(out@);
        let x = rest.remove(0);
        let mut j: usize = out.len();
        while j > 0 && !le_version(out[j - 1].as_str(), x.as_str())
            invariant
                j <= out@.len(),
                forall|k: int| j <= k < out@.len() ==> !vle(#[trigger] views(out@)[k], x@),
            decreases j,
        {
            j = j - 1;
        }
        proof {
            lemma_insert_sorted_at(x@, prev_out, j as int);
        }
        out.insert(j, x);
        proof {
            assert(views(out@) =~= prev_out.subrange(0, j as int) + seq![x@]
                + prev_out.subrange(j as int, prev_out.len() as int));
            let next_done = done.push(x@);
            assert(next_done.drop_last() =~= done);
            assert(spec_order(next_done) == insert_sorted(x@, spec_order(done)));
            done = next_done;
            assert(all =~= done + views(rest@));
        }
    }
    proof {
        assert(done =~= all);
        lemma_order_len(all);
    }
    out
}

/// The newest remote version: the last element of the ordered sequence, used
/// to resolve the symbolic version request for the latest release.
pub fn latest(ordered: &Vec<String>) -> (r: Option<String>)
    ensures
        ordered@.len() == 0 <==> r is None,
        r matches Some(v) ==> ordered@.len() > 0 && v == ordered@.last(),
{
    if ordered.len() == 0 {
        None
    } else {
        Some(ordered[ordered.len() - 1].clone())
    }
}

/// Strings that do not parse as versions are kept and placed by the lexical
/// fallback: among themselves they compare lexically, and they sort before
/// every parseable string.
pub proof fn lemma_malformed_lexical(a: Seq<char>, b: Seq<char>)
    ensures
        !is_version(a) && !is_version(b) ==> vle(a, b) == lex_le(a, b),
        !is_version(a) && is_version(b) ==> vle(a, b),
{
}

} // verus!
