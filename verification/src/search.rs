//! Searching a sequence for its first element with a property, and the text
//! containers the game keeps (lists of identifiers and names).

use vstd::prelude::*;
use crate::text::lex_lt;

verus! {

/// `i` is the position of the first element of `s` that satisfies `p`.
pub open spec fn is_first_match<T>(s: Seq<T>, p: spec_fn(T) -> bool, i: int) -> bool {
    &&& 0 <= i < s.len()
    &&& p(s[i])
    &&& forall|j: int| 0 <= j < i ==> !p(#[trigger] s[j])
}

/// Some element of `s` satisfies `p`.
pub open spec fn any_match<T>(s: Seq<T>, p: spec_fn(T) -> bool) -> bool {
    exists|i: int| 0 <= i < s.len() && p(#[trigger] s[i])
}

/// The position of the first element of `s` that satisfies `p`, if any.
pub open spec fn first_match<T>(s: Seq<T>, p: spec_fn(T) -> bool) -> Option<int> {
    if any_match(s, p) {
        Some(choose|i: int| is_first_match(s, p, i))
    } else {
        None
    }
}

proof fn lemma_first_exists<T>(s: Seq<T>, p: spec_fn(T) -> bool, i: int)
    requires
        0 <= i < s.len(),
        p(s[i]),
    ensures
        exists|k: int| is_first_match(s, p, k),
    decreases i,
{
    if exists|j: int| 0 <= j < i && p(#[trigger] s[j]) {
        let j = choose|j: int| 0 <= j < i && p(#[trigger] s[j]);
        lemma_first_exists(s, p, j);
    } else {
        assert(is_first_match(s, p, i));
    }
}

/// `first_match` names the first matching position, or `None` when nothing matches.
pub proof fn lemma_first_match<T>(s: Seq<T>, p: spec_fn(T) -> bool)
    ensures
        match first_match(s, p) {
            Some(i) => is_first_match(s, p, i),
            None => forall|i: int| 0 <= i < s.len() ==> !p(#[trigger] s[i]),
        },
{
    if any_match(s, p) {
        let i = choose|i: int| 0 <= i < s.len() && p(#[trigger] s[i]);
        lemma_first_exists(s, p, i);
    }
}

/// The first matching position is unique.
pub proof fn lemma_first_match_at<T>(s: Seq<T>, p: spec_fn(T) -> bool, i: int)
    requires
        is_first_match(s, p, i),
    ensures
        first_match(s, p) == Some(i),
{
    lemma_first_match(s, p);
    let k = first_match(s, p)->0;
    if k < i {
        assert(!p(s[k]));
    } else if i < k {
        assert(!p(s[i]));
    }
}

/// A position as a machine index.
pub open spec fn as_index(o: Option<int>) -> Option<usize> {
    match o {
        Some(i) => Some(i as usize),
        None => None,
    }
}

/// Some text of `v` equals `t`.
pub open spec fn contains_text(v: Seq<String>, t: Seq<char>) -> bool {
    exists|i: int| 0 <= i < v.len() && (#[trigger] v[i])@ == t
}

/// The texts of `v` are in strictly increasing `String` order.
pub open spec fn strictly_sorted(v: Seq<String>) -> bool {
    forall|i: int, j: int| 0 <= i < j < v.len() ==> lex_lt((#[trigger] v[i])@, (#[trigger] v[j])@)
}

/// Whether some text of `v` equals `t`.
pub fn has_text(v: &Vec<String>, t: &str) -> (r: bool)
    ensures
        r == contains_text(v@, t@),
{
    let mut i: usize = 0;
    while i < v.len()
        invariant
            i <= v@.len(),
            forall|j: int| 0 <= j < i ==> (#[trigger] v@[j])@ != t@,
        decreases v.len() - i,
    {
        if crate::text::same_text(v[i].as_str(), t) {
            return true;
        }
        i = i + 1;
    }
    false
}

/// `v` with every text equal to `t` left out, the others in their order.
pub open spec fn without_text(v: Seq<String>, t: Seq<char>) -> Seq<String> {
    v.filter(text_differs(t))
}

/// The text differs from `t`.
pub open spec fn text_differs(t: Seq<char>) -> spec_fn(String) -> bool {
    |s: String| s@ != t
}

/// Leaving out `t` removes every text equal to it and keeps every other.
pub proof fn lemma_without_text(v: Seq<String>, t: Seq<char>, x: Seq<char>)
    ensures
        contains_text(without_text(v, t), x) <==> (contains_text(v, x) && x != t),
{
    let pred = text_differs(t);
    let w = without_text(v, t);
    if contains_text(w, x) {
        let i = choose|i: int| 0 <= i < w.len() && (#[trigger] w[i])@ == x;
        v.lemma_filter_pred(pred, i);
        assert(v.filter(pred).contains(w[i]) ==> v.contains(w[i])) by {
            v.filter_lemma(pred);
            if v.filter(pred).contains(w[i]) {
                crate::search::lemma_filter_subset(v, pred, w[i]);
            }
        }
        assert(w.contains(w[i]));
        let j = choose|j: int| 0 <= j < v.len() && v[j] == w[i];
        assert(v[j]@ == x);
    }
    if contains_text(v, x) && x != t {
        let i = choose|i: int| 0 <= i < v.len() && (#[trigger] v[i])@ == x;
        v.lemma_filter_contains(pred, i);
        let j = choose|j: int| 0 <= j < w.len() && w[j] == v[i];
        assert(w[j]@ == x);
    }
}

/// What a filter keeps comes from the sequence filtered.
pub proof fn lemma_filter_subset<A>(v: Seq<A>, pred: spec_fn(A) -> bool, a: A)
    requires
        v.filter(pred).contains(a),
    ensures
        v.contains(a),
    decreases v.len(),
{
    reveal_with_fuel(Seq::<_>::filter, 1);
    if v.len() > 0 {
        let rest = v.drop_last();
        if pred(v.last()) {
            assert(v.filter(pred) == rest.filter(pred).push(v.last()));
            if a != v.last() {
                let k = choose|k: int| 0 <= k < v.filter(pred).len() && v.filter(pred)[k] == a;
                assert(rest.filter(pred)[k] == a);
                lemma_filter_subset(rest, pred, a);
                let j = choose|j: int| 0 <= j < rest.len() && rest[j] == a;
                assert(v[j] == a);
            } else {
                assert(v[v.len() - 1] == a);
            }
        } else {
            assert(v.filter(pred) == rest.filter(pred));
            lemma_filter_subset(rest, pred, a);
            let j = choose|j: int| 0 <= j < rest.len() && rest[j] == a;
            assert(v[j] == a);
        }
    }
}

/// Filtering by a property that every element has keeps them all.
pub proof fn lemma_filter_keeps_all<A>(v: Seq<A>, pred: spec_fn(A) -> bool)
    requires
        forall|i: int| 0 <= i < v.len() ==> pred(#[trigger] v[i]),
    ensures
        v.filter(pred) == v,
    decreases v.len(),
{
    reveal_with_fuel(Seq::<_>::filter, 1);
    if v.len() > 0 {
        let rest = v.drop_last();
        assert forall|i: int| 0 <= i < rest.len() implies pred(#[trigger] rest[i]) by {
            assert(rest[i] == v[i]);
        }
        lemma_filter_keeps_all(rest, pred);
        assert(pred(v[v.len() - 1]));
        assert(rest.push(v.last()) =~= v);
    }
}

/// Removes every text equal to `t` from `v`, keeping the order of the others.
pub fn remove_text(v: &mut Vec<String>, t: &str)
    ensures
        final(v)@ == without_text(old(v)@, t@),
{
    let mut kept: Vec<String> = Vec::new();
    let mut i: usize = 0;
    while i < v.len()
        invariant
            i <= v@.len(),
            *v == *old(v),
            kept@ == without_text(v@.take(i as int), t@),
        decreases v.len() - i,
    {
        proof {
            reveal_with_fuel(Seq::<_>::filter, 1);
            assert(v@.take(i + 1).drop_last() =~= v@.take(i as int));
        }
        if !crate::text::same_text(v[i].as_str(), t) {
            kept.push(v[i].clone());
        }
        i = i + 1;
    }
    assert(v@.take(v@.len() as int) =~= v@);
    *v = kept;
}

/// Adds `t` at the end of `v` unless some text of `v` already equals it.
pub fn add_text_once(v: &mut Vec<String>, t: &str)
    ensures
        final(v)@.len() == old(v)@.len() || final(v)@.len() == old(v)@.len() + 1,
        contains_text(old(v)@, t@) ==> final(v)@ == old(v)@,
        !contains_text(old(v)@, t@) ==> final(v)@.len() == old(v)@.len() + 1 && final(v)@.drop_last() == old(v)@
            && final(v)@.last()@ == t@,
{
    if !has_text(v, t) {
        v.push(t.to_owned());
        assert(v@.drop_last() =~= old(v)@);
    }
}

/// Inserts `x` into the strictly sorted `v` at its place, unless some text of
/// `v` already equals it.
pub fn insert_sorted(v: &mut Vec<String>, x: String)
    requires
        strictly_sorted(old(v)@),
    ensures
        strictly_sorted(final(v)@),
        forall|t: Seq<char>| contains_text(final(v)@, t) <==> (contains_text(old(v)@, t) || t == x@),
{
    let mut i: usize = 0;
    while i < v.len()
        invariant
            i <= v@.len(),
            *v == *old(v),
            forall|j: int| 0 <= j < i ==> lex_lt((#[trigger] v@[j])@, x@),
        ensures
            i <= v@.len(),
            *v == *old(v),
            forall|j: int| 0 <= j < i ==> lex_lt((#[trigger] v@[j])@, x@),
            i < v@.len() ==> !lex_lt(v@[i as int]@, x@),
        decreases v.len() - i,
    {
        if !crate::text::text_lt(v[i].as_str(), x.as_str()) {
            break;
        }
        i = i + 1;
    }
    if i < v.len() && crate::text::same_text(v[i].as_str(), x.as_str()) {
        proof {
            assert forall|t: Seq<char>| contains_text(v@, t) <==> (contains_text(old(v)@, t) || t == x@) by {
                if t == x@ {
                    assert(v@[i as int]@ == t);
                }
            }
        }
        return;
    }
    let ghost old_v = v@;
    assert(old_v == old(v)@);
    let ghost xv = x@;
    proof {
        if i < v@.len() {
            crate::text::lemma_lex_total(v@[i as int]@, x@);
        }
    }
    v.insert(i, x);
    proof {
        assert forall|a: int, b: int| 0 <= a < b < v@.len() implies lex_lt((#[trigger] v@[a])@, (#[trigger] v@[b])@) by {
            if b < i {
                assert(v@[a] == old_v[a] && v@[b] == old_v[b]);
            } else if b == i {
                assert(v@[a] == old_v[a]);
            } else if a < i {
                assert(v@[a] == old_v[a] && v@[b] == old_v[b - 1]);
                assert(lex_lt(xv, old_v[i as int]@));
                if b - 1 > i {
                    crate::text::lemma_lex_transitive(xv, old_v[i as int]@, old_v[b - 1]@);
                }
                crate::text::lemma_lex_transitive(old_v[a]@, xv, old_v[b - 1]@);
            } else if a == i {
                assert(v@[b] == old_v[b - 1]);
                assert(lex_lt(xv, old_v[i as int]@));
                if b - 1 > i {
                    crate::text::lemma_lex_transitive(xv, old_v[i as int]@, old_v[b - 1]@);
                }
            } else {
                assert(v@[a] == old_v[a - 1] && v@[b] == old_v[b - 1]);
            }
        }
        assert forall|t: Seq<char>| contains_text(v@, t) <==> (contains_text(old_v, t) || t == xv) by {
            if contains_text(v@, t) {
                let k = choose|k: int| 0 <= k < v@.len() && (#[trigger] v@[k])@ == t;
                if k < i {
                    assert(old_v[k]@ == t);
                } else if k > i {
                    assert(old_v[k - 1]@ == t);
                }
            }
            if contains_text(old_v, t) {
                let k = choose|k: int| 0 <= k < old_v.len() && (#[trigger] old_v[k])@ == t;
                if k < i {
                    assert(v@[k]@ == t);
                } else {
                    assert(v@[k + 1]@ == t);
                }
            }
            if t == xv {
                assert(v@[i as int]@ == t);
            }
        }
        assert(xv == x@);
        assert(forall|t: Seq<char>| contains_text(v@, t) <==> (contains_text(old(v)@, t) || t == x@));
    }
}
} // verus!
