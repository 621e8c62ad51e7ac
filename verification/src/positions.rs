use vstd::prelude::*;

verus! {

/// `i` is the first position in `s` whose item satisfies `p`.
pub open spec fn is_first_where<A>(s: Seq<A>, p: spec_fn(A) -> bool, i: int) -> bool {
    &&& 0 <= i < s.len()
    &&& p(s[i])
    &&& forall|j: int| 0 <= j < i ==> !p(#[trigger] s[j])
}

/// The first position in `s` whose item satisfies `p`, if there is one.
pub open spec fn first_where<A>(s: Seq<A>, p: spec_fn(A) -> bool) -> Option<int> {
    if exists|i: int| is_first_where(s, p, i) {
        Some(choose|i: int| is_first_where(s, p, i))
    } else {
        None
    }
}

/// The first position is unique, so `first_where` names it.
pub proof fn lemma_first_where_found<A>(s: Seq<A>, p: spec_fn(A) -> bool, i: int)
    requires
        is_first_where(s, p, i),
    ensures
        first_where(s, p) == Some(i),
{
    let c = choose|k: int| is_first_where(s, p, k);
    assert(is_first_where(s, p, c));
    if c < i {
        assert(!p(s[c]));
    } else if i < c {
        assert(!p(s[i]));
    }
}

/// What `first_where` returns is a first position.
pub proof fn lemma_first_where_some<A>(s: Seq<A>, p: spec_fn(A) -> bool)
    requires
        first_where(s, p) is Some,
    ensures
        is_first_where(s, p, first_where(s, p)->0),
{
}

/// Where no item satisfies `p`, there is no first position.
pub proof fn lemma_first_where_none<A>(s: Seq<A>, p: spec_fn(A) -> bool)
    requires
        forall|j: int| 0 <= j < s.len() ==> !p(#[trigger] s[j]),
    ensures
        first_where(s, p) is None,
{
    if exists|i: int| is_first_where(s, p, i) {
        let c = choose|k: int| is_first_where(s, p, k);
        assert(p(s[c]));
    }
}

/// Where some item satisfies `p`, a first one does.
pub proof fn lemma_exists_first<A>(s: Seq<A>, p: spec_fn(A) -> bool, j: int)
    requires
        0 <= j < s.len(),
        p(s[j]),
    ensures
        exists|i: int| is_first_where(s, p, i),
    decreases j,
{
    if forall|i: int| 0 <= i < j ==> !p(#[trigger] s[i]) {
        assert(is_first_where(s, p, j));
    } else {
        let i = choose|i: int| 0 <= i < j && !!p(#[trigger] s[i]);
        lemma_exists_first(s, p, i);
    }
}

/// A spec predicate on keys: equal to `k`.
pub open spec fn equals_key(k: u64) -> spec_fn(u64) -> bool {
    |x: u64| x == k
}

/// The first position of `k` in `s`.
pub open spec fn position_of(s: Seq<u64>, k: u64) -> Option<int> {
    first_where(s, equals_key(k))
}

/// Finds the first position of `k` in `v`.
pub fn find_position(v: &Vec<u64>, k: u64) -> (res: Option<usize>)
    ensures
        res matches Some(i) ==> position_of(v@, k) == Some(i as int),
        res is None ==> position_of(v@, k) is None,
        res is None <==> !v@.contains(k),
{
    let mut i: usize = 0;
    while i < v.len()
        invariant
            i <= v.len(),
            forall|j: int| 0 <= j < i ==> v@[j] != k,
        decreases v.len() - i,
    {
        if v[i] == k {
            proof {
                assert(is_first_where(v@, equals_key(k), i as int));
                lemma_first_where_found(v@, equals_key(k), i as int);
            }
            return Some(i);
        }
        i = i + 1;
    }
    proof {
        assert forall|j: int| 0 <= j < v@.len() implies !equals_key(k)(#[trigger] v@[j]) by {}
        lemma_first_where_none(v@, equals_key(k));
    }
    None
}

} // verus!
