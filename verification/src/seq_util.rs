//! Sequence facts shared by the stores of the reactor: "the first element that
//! satisfies a predicate", which is how every `find` over an ordered store is
//! specified.
use vstd::prelude::*;

verus! {

/// `i` is the position of the first element of `s` that satisfies `p`.
pub open spec fn is_first<A>(s: Seq<A>, p: spec_fn(A) -> bool, i: int) -> bool {
    &&& 0 <= i < s.len()
    &&& p(s[i])
    &&& forall|j: int| 0 <= j < i ==> !p(#[trigger] s[j])
}

/// The position of the first element of `s` that satisfies `p`, if any.
pub open spec fn first_index<A>(s: Seq<A>, p: spec_fn(A) -> bool) -> Option<int> {
    if exists|i: int| is_first(s, p, i) {
        Some(choose|i: int| is_first(s, p, i))
    } else {
        None
    }
}

/// The first element of `s` that satisfies `p`, if any.
pub open spec fn first_match<A>(s: Seq<A>, p: spec_fn(A) -> bool) -> Option<A> {
    match first_index(s, p) {
        Some(i) => Some(s[i]),
        None => None,
    }
}

/// Some element of `s` satisfies `p`.
pub open spec fn any_match<A>(s: Seq<A>, p: spec_fn(A) -> bool) -> bool {
    exists|i: int| 0 <= i < s.len() && #[trigger] p(s[i])
}

pub proof fn lemma_first_index_found<A>(s: Seq<A>, p: spec_fn(A) -> bool, i: int)
    requires
        is_first(s, p, i),
    ensures
        first_index(s, p) == Some(i),
        first_match(s, p) == Some(s[i]),
        any_match(s, p),
{
    let k = choose|k: int| is_first(s, p, k);
    assert(is_first(s, p, k));
    if k < i {
        assert(!p(s[k]));
    }
    if i < k {
        assert(!p(s[i]));
    }
    assert(k == i);
}

pub proof fn lemma_first_index_none<A>(s: Seq<A>, p: spec_fn(A) -> bool)
    requires
        forall|j: int| 0 <= j < s.len() ==> !p(#[trigger] s[j]),
    ensures
        first_index(s, p) == None::<int>,
        first_match(s, p) == None::<A>,
        !any_match(s, p),
{
    if exists|i: int| is_first(s, p, i) {
        let k = choose|k: int| is_first(s, p, k);
        assert(p(s[k]));
    }
}

/// Whatever `first_match` returns satisfies the predicate and is in the sequence.
pub proof fn lemma_first_match_some<A>(s: Seq<A>, p: spec_fn(A) -> bool)
    requires
        first_match(s, p) is Some,
    ensures
        p(first_match(s, p)->0),
        s.contains(first_match(s, p)->0),
{
    let k = choose|k: int| is_first(s, p, k);
    assert(s[k] == first_match(s, p)->0);
}

/// Some element satisfies `p` exactly when a first one exists.
pub proof fn lemma_first_index_exists<A>(s: Seq<A>, p: spec_fn(A) -> bool)
    ensures
        any_match(s, p) <==> first_index(s, p) is Some,
    decreases s.len(),
{
    if any_match(s, p) {
        if s.len() > 0 {
            let t = s.drop_last();
            lemma_first_index_exists(t, p);
            if any_match(t, p) {
                let k = first_index(t, p)->0;
                let kk = choose|i: int| is_first(t, p, i);
                assert(is_first(t, p, kk));
                assert(is_first(s, p, kk)) by {
                    assert forall|j: int| 0 <= j < kk implies !p(#[trigger] s[j]) by {
                        assert(s[j] == t[j]);
                    }
                    assert(s[kk] == t[kk]);
                }
                lemma_first_index_found(s, p, kk);
            } else {
                let i = choose|i: int| 0 <= i < s.len() && #[trigger] p(s[i]);
                if i < s.len() - 1 {
                    assert(t[i] == s[i]);
                    assert(any_match(t, p));
                }
                assert(i == s.len() - 1);
                assert(is_first(s, p, i)) by {
                    assert forall|j: int| 0 <= j < i implies !p(#[trigger] s[j]) by {
                        assert(s[j] == t[j]);
                        if p(s[j]) {
                            assert(p(t[j]));
                        }
                    }
                }
                lemma_first_index_found(s, p, i);
            }
        }
    } else {
        if first_index(s, p) is Some {
            let k = choose|k: int| is_first(s, p, k);
            assert(p(s[k]));
        }
    }
}

} // verus!

verus! {

/// Appending an element does not change an earlier first match; without one,
/// the new element is the first match exactly when it satisfies the predicate.
pub proof fn lemma_first_match_push<A>(s: Seq<A>, x: A, p: spec_fn(A) -> bool)
    ensures
        first_match(s.push(x), p) == (match first_match(s, p) {
            Some(v) => Some(v),
            None => if p(x) {
                Some(x)
            } else {
                None
            },
        }),
        first_index(s.push(x), p) == (match first_index(s, p) {
            Some(i) => Some(i),
            None => if p(x) {
                Some(s.len() as int)
            } else {
                None
            },
        }),
{
    let t = s.push(x);
    lemma_first_index_exists(s, p);
    if first_index(s, p) is Some {
        let k = choose|k: int| is_first(s, p, k);
        assert(is_first(t, p, k)) by {
            assert forall|j: int| 0 <= j < k implies !p(#[trigger] t[j]) by {
                assert(t[j] == s[j]);
            }
            assert(t[k] == s[k]);
        }
        lemma_first_index_found(t, p, k);
    } else {
        assert(!any_match(s, p));
        if p(x) {
            let n = s.len() as int;
            assert(is_first(t, p, n)) by {
                assert forall|j: int| 0 <= j < n implies !p(#[trigger] t[j]) by {
                    assert(t[j] == s[j]);
                    if p(s[j]) {
                        assert(any_match(s, p));
                    }
                }
            }
            lemma_first_index_found(t, p, n);
        } else {
            assert forall|j: int| 0 <= j < t.len() implies !p(#[trigger] t[j]) by {
                if j < s.len() {
                    assert(t[j] == s[j]);
                    if p(s[j]) {
                        assert(any_match(s, p));
                    }
                }
            }
            lemma_first_index_none(t, p);
        }
    }
}

/// Replacing an element by one that the predicate judges alike keeps the
/// position of the first match.
pub proof fn lemma_first_match_update<A>(s: Seq<A>, i: int, x: A, p: spec_fn(A) -> bool)
    requires
        0 <= i < s.len(),
        p(s[i]) == p(x),
    ensures
        first_index(s.update(i, x), p) == first_index(s, p),
        first_match(s.update(i, x), p) == (if first_index(s, p) == Some(i) {
            Some(x)
        } else {
            first_match(s, p)
        }),
{
    let t = s.update(i, x);
    assert forall|j: int| 0 <= j < s.len() implies p(#[trigger] t[j]) == p(s[j]) by {
        if j != i {
            assert(t[j] == s[j]);
        }
    }
    lemma_first_index_exists(s, p);
    if first_index(s, p) is Some {
        let k = choose|k: int| is_first(s, p, k);
        assert(is_first(t, p, k)) by {
            assert forall|j: int| 0 <= j < k implies !p(#[trigger] t[j]) by {
                assert(p(t[j]) == p(s[j]));
            }
            assert(p(t[k]) == p(s[k]));
        }
        lemma_first_index_found(t, p, k);
        lemma_first_index_found(s, p, k);
    } else {
        assert(!any_match(s, p));
        assert forall|j: int| 0 <= j < t.len() implies !p(#[trigger] t[j]) by {
            assert(p(t[j]) == p(s[j]));
            if p(s[j]) {
                assert(any_match(s, p));
            }
        }
        lemma_first_index_none(t, p);
    }
}

} // verus!
