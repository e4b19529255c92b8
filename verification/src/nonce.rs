//! The registry of consumed replay nonces.  A nonce moves from unseen to
//! consumed at most once and is never un-consumed.

use vstd::prelude::*;

verus! {

broadcast use
    vstd::std_specs::vec::group_vec_axioms,
    vstd::seq::group_seq_axioms,
    vstd::seq_lib::group_seq_lib_default,
    vstd::set::group_set_axioms;

/// The set of nonces already consumed by the inbound pipeline.
#[derive(Clone, Debug)]
pub struct NonceRegistry {
    consumed: Vec<u64>,
}

impl View for NonceRegistry {
    type V = Set<u64>;

    closed spec fn view(&self) -> Set<u64> {
        self.consumed@.to_set()
    }
}

impl NonceRegistry {
    /// An empty registry: no nonce is consumed.
    pub fn new() -> (r: Self)
        ensures
            r@ == Set::<u64>::empty(),
    {
        let r = NonceRegistry { consumed: Vec::new() };
        proof {
            assert(r.consumed@.to_set() =~= Set::<u64>::empty());
        }
        r
    }

    /// Whether the nonce has already been consumed.
    pub fn contains(&self, nonce: u64) -> (r: bool)
        ensures
            r <==> self@.contains(nonce),
    {
        let mut i: usize = 0;
        while i < self.consumed.len()
            invariant
                0 <= i <= self.consumed.len(),
                forall|j: int| 0 <= j < i ==> self.consumed@[j] != nonce,
            decreases self.consumed.len() - i,
        {
            if self.consumed[i] == nonce {
                proof {
                    assert(self.consumed@.contains(nonce));
                }
                return true;
            }
            i += 1;
        }
        proof {
            assert(!self.consumed@.contains(nonce));
        }
        false
    }

    /// Marks the nonce consumed.  Inserting an already-consumed nonce
    /// leaves the registry unchanged.
    pub fn insert(&mut self, nonce: u64)
        ensures
            final(self)@ == old(self)@.insert(nonce),
    {
        if !self.contains(nonce) {
            self.consumed.push(nonce);
            proof {
                let pre = old(self).consumed@;
                let post = self.consumed@;
                assert(post == pre.push(nonce));
                assert forall|x: u64| post.contains(x) implies (pre.contains(x) || x == nonce) by {
                    let i = choose|i: int| 0 <= i < post.len() && post[i] == x;
                    if i < pre.len() {
                        assert(pre[i] == x);
                    }
                }
                assert forall|x: u64| pre.contains(x) implies post.contains(x) by {
                    let i = choose|i: int| 0 <= i < pre.len() && pre[i] == x;
                    assert(post[i] == x);
                }
                assert(post.contains(nonce)) by {
                    assert(post[pre.len() as int] == nonce);
                }
                assert(post.to_set() =~= pre.to_set().insert(nonce));
            }
        } else {
            proof {
                assert(self.consumed@.to_set() =~= old(self).consumed@.to_set().insert(nonce));
            }
        }
    }
}

} // verus!
