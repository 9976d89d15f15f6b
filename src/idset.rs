//! A set of 32-byte keys kept as a strictly ascending sequence, so that its
//! order of iteration and its encoding depend on its contents alone.

use crate::ids::{bytes_lt, compare_bytes, lemma_bytes_lt_asymmetric, lemma_bytes_lt_transitive};
use core::cmp::Ordering;
use vstd::prelude::*;

verus! {

/// Each key of `s` is below the next one.
pub open spec fn strictly_ascending(s: Seq<[u8; 32]>) -> bool {
    forall|i: int, j: int| 0 <= i < j < s.len() ==> bytes_lt(#[trigger] s[i], #[trigger] s[j])
}

/// Set of 32-byte keys in ascending order.
#[derive(Clone, Debug, PartialEq, Eq, Hash)]
pub struct IdSet {
    keys: Vec<[u8; 32]>,
}

impl View for IdSet {
    type V = Set<[u8; 32]>;

    closed spec fn view(&self) -> Set<[u8; 32]> {
        self.keys@.to_set()
    }
}

impl IdSet {
    /// The keys in ascending order.
    pub closed spec fn keys_view(&self) -> Seq<[u8; 32]> {
        self.keys@
    }

    /// The keys are strictly ascending.
    pub closed spec fn wf(&self) -> bool {
        strictly_ascending(self.keys@)
    }

    /// The empty set.
    pub fn new() -> (r: IdSet)
        ensures
            r.wf(),
            r@ == Set::<[u8; 32]>::empty(),
            r.keys_view() == Seq::<[u8; 32]>::empty(),
    {
        let r = IdSet { keys: Vec::new() };
        assert(r@ =~= Set::<[u8; 32]>::empty());
        r
    }

    /// The set of `keys`, or `None` when they are not strictly ascending.
    pub fn from_keys(keys: Vec<[u8; 32]>) -> (r: Option<IdSet>)
        ensures
            r is Some <==> strictly_ascending(keys@),
            r matches Some(set) ==> set.wf() && set.keys_view() == keys@ && set@ == keys@.to_set(),
    {
        let n = keys.len();
        let mut i: usize = 1;
        if n == 0 {
            return Some(IdSet { keys });
        }
        while i < n
            invariant
                1 <= i <= n,
                n == keys@.len(),
                forall|a: int, b: int| 0 <= a < b < i ==> bytes_lt(#[trigger] keys@[a], #[trigger] keys@[b]),
            decreases n - i,
        {
            match compare_bytes(&keys[i - 1], &keys[i]) {
                Ordering::Less => {},
                _ => {
                    assert(!bytes_lt(keys@[i - 1], keys@[i as int]));
                    return None;
                },
            }
            assert forall|a: int, b: int| 0 <= a < b < i + 1 implies bytes_lt(
                #[trigger] keys@[a],
                #[trigger] keys@[b],
            ) by {
                if b == i && a < i - 1 {
                    lemma_bytes_lt_transitive(keys@[a], keys@[i - 1], keys@[b]);
                }
            }
            i = i + 1;
        }
        Some(IdSet { keys })
    }

    /// The keys in ascending order.
    pub fn keys(&self) -> (r: &[[u8; 32]])
        ensures
            r@ == self.keys_view(),
            r@.to_set() == self@,
            self.wf() ==> strictly_ascending(r@),
    {
        self.keys.as_slice()
    }

    /// Whether `k` is in the set.
    pub fn contains(&self, k: &[u8; 32]) -> (r: bool)
        ensures
            r == self@.contains(*k),
    {
        let n = self.keys.len();
        let mut i: usize = 0;
        while i < n
            invariant
                0 <= i <= n,
                n == self.keys@.len(),
                forall|j: int| 0 <= j < i ==> self.keys@[j] != *k,
            decreases n - i,
        {
            match compare_bytes(&self.keys[i], k) {
                Ordering::Equal => {
                    assert(self.keys@[i as int] == *k);
                    assert(self.keys@.contains(*k));
                    return true;
                },
                _ => {},
            }
            i = i + 1;
        }
        false
    }

    /// Adds `k`; returns whether it was absent.
    pub fn insert(&mut self, k: [u8; 32]) -> (r: bool)
        requires
            old(self).wf(),
        ensures
            final(self).wf(),
            r == !old(self)@.contains(k),
            final(self)@ == old(self)@.insert(k),
    {
        let n = self.keys.len();
        let mut i: usize = 0;
        while i < n
            invariant
                0 <= i <= n,
                n == self.keys@.len(),
                self.keys@ == old(self).keys@,
                strictly_ascending(self.keys@),
                forall|j: int| 0 <= j < i ==> bytes_lt(#[trigger] self.keys@[j], k),
            ensures
                0 <= i <= n,
                self.keys@ == old(self).keys@,
                forall|j: int| 0 <= j < i ==> bytes_lt(#[trigger] self.keys@[j], k),
                i < n ==> bytes_lt(k, self.keys@[i as int]),
            decreases n - i,
        {
            match compare_bytes(&self.keys[i], &k) {
                Ordering::Less => {},
                Ordering::Equal => {
                    assert(self.keys@.contains(k));
                    assert(old(self)@.insert(k) =~= old(self)@);
                    return false;
                },
                Ordering::Greater => {
                    break;
                },
            }
            i = i + 1;
        }
        let ghost s = self.keys@;
        proof {
            if i < n {
                assert forall|j: int| i <= j < n implies bytes_lt(k, #[trigger] s[j]) by {
                    if j > i {
                        lemma_bytes_lt_transitive(k, s[i as int], s[j]);
                    }
                }
            }
            assert forall|j: int| 0 <= j < n implies s[j] != k by {
                if j < i {
                    lemma_bytes_lt_asymmetric(s[j], k);
                } else {
                    lemma_bytes_lt_asymmetric(k, s[j]);
                }
            }
        }
        self.keys.insert(i, k);
        let ghost t = self.keys@;
        assert(t == s.insert(i as int, k));
        assert(strictly_ascending(t)) by {
            assert forall|a: int, b: int| 0 <= a < b < t.len() implies bytes_lt(
                #[trigger] t[a],
                #[trigger] t[b],
            ) by {
                if b < i {
                } else if b == i {
                } else if a < i {
                    lemma_bytes_lt_transitive(t[a], k, t[b]);
                } else if a == i {
                } else {
                    assert(t[a] == s[a - 1] && t[b] == s[b - 1]);
                }
            }
        }
        assert(t.to_set() =~= s.to_set().insert(k)) by {
            assert forall|x: [u8; 32]| t.contains(x) implies #[trigger] s.to_set().insert(k).contains(x) by {
                let j = choose|j: int| 0 <= j < t.len() && t[j] == x;
                if j < i {
                    assert(s[j] == x);
                } else if j > i {
                    assert(s[j - 1] == x);
                }
            }
            assert forall|x: [u8; 32]| #[trigger] s.to_set().insert(k).contains(x) implies t.contains(x) by {
                if x == k {
                    assert(t[i as int] == k);
                } else {
                    assert(s.contains(x));
                    let j = choose|j: int| 0 <= j < s.len() && s[j] == x;
                    if j < i {
                        assert(t[j] == x);
                    } else {
                        assert(t[j + 1] == x);
                    }
                }
            }
        }
        assert(!s.contains(k));
        true
    }
}

} // verus!
