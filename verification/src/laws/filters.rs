//! Facts about filtered sequences.

use vstd::prelude::*;

verus! {

/// Nothing passes a condition that no element meets.
pub proof fn lemma_filter_none<A>(s: Seq<A>, p: spec_fn(A) -> bool)
    requires
        forall|i: int| 0 <= i < s.len() ==> !p(#[trigger] s[i]),
    ensures
        s.filter(p) == Seq::<A>::empty(),
    decreases s.len(),
{
    reveal(Seq::filter);
    if s.len() > 0 {
        let rest = s.drop_last();
        assert forall|i: int| 0 <= i < rest.len() implies !p(#[trigger] rest[i]) by {
            assert(rest[i] == s[i]);
        }
        lemma_filter_none(rest, p);
        assert(s.last() == s[s.len() - 1]);
    }
}

/// Everything passes a condition that every element meets.
pub proof fn lemma_filter_all<A>(s: Seq<A>, p: spec_fn(A) -> bool)
    requires
        forall|i: int| 0 <= i < s.len() ==> p(#[trigger] s[i]),
    ensures
        s.filter(p) == s,
    decreases s.len(),
{
    reveal(Seq::filter);
    if s.len() > 0 {
        let rest = s.drop_last();
        assert forall|i: int| 0 <= i < rest.len() implies p(#[trigger] rest[i]) by {
            assert(rest[i] == s[i]);
        }
        lemma_filter_all(rest, p);
        assert(s.last() == s[s.len() - 1]);
        assert(s =~= rest.push(s.last()));
    } else {
        assert(s.filter(p) =~= s);
    }
}

/// Conditions that agree on every element let the same elements pass.
pub proof fn lemma_filter_agree<A>(s: Seq<A>, p: spec_fn(A) -> bool, q: spec_fn(A) -> bool)
    requires
        forall|i: int| 0 <= i < s.len() ==> p(#[trigger] s[i]) == q(s[i]),
    ensures
        s.filter(p) == s.filter(q),
    decreases s.len(),
{
    reveal(Seq::filter);
    if s.len() > 0 {
        let rest = s.drop_last();
        assert forall|i: int| 0 <= i < rest.len() implies p(#[trigger] rest[i]) == q(rest[i]) by {
            assert(rest[i] == s[i]);
        }
        lemma_filter_agree(rest, p, q);
        assert(s.last() == s[s.len() - 1]);
    }
}

/// To filter by the weaker of two conditions first makes no difference.
pub proof fn lemma_filter_twice<A>(
    s: Seq<A>,
    weak: spec_fn(A) -> bool,
    strong: spec_fn(A) -> bool,
)
    requires
        forall|a: A| strong(a) ==> #[trigger] weak(a),
    ensures
        s.filter(strong) == s.filter(weak).filter(strong),
    decreases s.len(),
{
    reveal(Seq::filter);
    if s.len() > 0 {
        lemma_filter_twice(s.drop_last(), weak, strong);
        let rest = s.drop_last().filter(weak);
        if weak(s.last()) {
            assert(rest.push(s.last()).drop_last() =~= rest);
        }
    }
}

/// Filtering one element.
pub proof fn lemma_filter_one<A>(a: A, p: spec_fn(A) -> bool)
    ensures
        seq![a].filter(p) == if p(a) {
            seq![a]
        } else {
            seq![]
        },
{
    reveal(Seq::filter);
    assert(seq![a].drop_last() =~= seq![]);
    assert(seq![a].drop_last().filter(p) =~= seq![]);
    assert(seq![a].filter(p) =~= if p(a) {
        seq![a]
    } else {
        seq![]
    });
}

/// Filtering two elements, neither of which passes.
pub proof fn lemma_filter_two<A>(a: A, b: A, p: spec_fn(A) -> bool)
    requires
        !p(a),
        !p(b),
    ensures
        seq![a, b].filter(p) == Seq::<A>::empty(),
{
    lemma_filter_one(a, p);
    lemma_filter_one(b, p);
    Seq::filter_distributes_over_add(seq![a], seq![b], p);
    assert(seq![a, b] =~= seq![a] + seq![b]);
    assert(seq![a, b].filter(p) =~= Seq::<A>::empty());
}

} // verus!
