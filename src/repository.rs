//! The repository capability and its in-memory backend.

use vstd::prelude::*;
use std::collections::HashMap;
use std::marker::PhantomData;
use crate::allocator::IdentityAllocator;
use vstd::std_specs::hash::spec_hash_map_iter;
use vstd::std_specs::iter::IteratorSpec;

verus! {

broadcast use vstd::std_specs::hash::group_hash_axioms;

/// What every store of values of type `T` offers, whatever it keeps them on.
pub trait Repository<T>: Sized {
    /// What a failed save reports.
    type Error;

    /// The stored values, by identity.
    spec fn contents(&self) -> Map<u64, T>;

    /// Stores `item` under an identity that was not in use.
    fn save(&mut self, item: T) -> (r: Result<(), Self::Error>)
        ensures
            r is Ok ==> exists|id: u64|
                !old(self).contents().contains_key(id) && final(self).contents()
                    == old(self).contents().insert(id, item),
            r is Err ==> final(self).contents() == old(self).contents(),
    ;

    /// The value stored under `id`, if any.
    fn find_by_id(&self, id: u64) -> (r: Option<&T>)
        ensures
            match r {
                Some(v) => self.contents().contains_key(id) && *v == self.contents()[id],
                None => !self.contents().contains_key(id),
            },
    ;

    /// Every stored value once, in an order that the store chooses.
    fn find_all(&self) -> (r: Vec<&T>)
        ensures
            r@.len() == self.contents().len(),
            exists|ids: Seq<u64>|
                #![trigger ids.to_set()]
                ids.no_duplicates() && ids.to_set() == self.contents().dom() && ids.len()
                    == r@.len() && forall|i: int| 0 <= i < ids.len() ==> *r@[i] == self.contents()[ids[i]],
    ;

    /// The number of stored values.
    fn count(&self) -> (r: usize)
        ensures
            r == self.contents().len(),
    {
        self.find_all().len()
    }
}

/// A store that keeps its values in memory, under identities that its own
/// allocator hands out.
pub struct InMemoryRepository<'a, T> where T: Clone + 'a {
    items: HashMap<u64, T>,
    first_id: u64,
    allocator: IdentityAllocator,
    _marker: PhantomData<&'a T>,
}

impl<'a, T: Clone> InMemoryRepository<'a, T> {
    /// The identities in use are exactly those that the allocator issued
    /// since the store was made.
    #[verifier::type_invariant]
    spec fn inv(self) -> bool {
        &&& self.first_id <= self.allocator.view_next()
        &&& forall|id: u64| #[trigger]
            self.items@.contains_key(id) <==> self.first_id <= id < self.allocator.view_next()
    }

    /// The identity of the first save.
    pub closed spec fn spec_first_id(&self) -> nat {
        self.first_id as nat
    }

    /// The identity that the next successful save uses.
    pub closed spec fn spec_next_id(&self) -> nat {
        self.allocator.view_next()
    }

    /// An empty store whose identities start at zero.
    pub fn new() -> (r: Self)
        ensures
            r.contents() == Map::<u64, T>::empty(),
            r.spec_first_id() == 0,
            r.spec_next_id() == 0,
    {
        InMemoryRepository {
            items: HashMap::new(),
            first_id: 0,
            allocator: IdentityAllocator::new(),
            _marker: PhantomData,
        }
    }

    /// An empty store that takes its identities from `allocator`.
    pub fn with_allocator(allocator: IdentityAllocator) -> (r: Self)
        ensures
            r.contents() == Map::<u64, T>::empty(),
            r.spec_first_id() == allocator.view_next(),
            r.spec_next_id() == allocator.view_next(),
    {
        let first_id = allocator.peek();
        InMemoryRepository { items: HashMap::new(), first_id, allocator, _marker: PhantomData }
    }

    /// The identity that the next successful save uses.
    pub fn next_id(&self) -> (r: u64)
        ensures
            r == self.spec_next_id(),
    {
        self.allocator.peek()
    }
}

/// One successful save of `item`: it took the store from `before` to `after`,
/// under the identity `before.spec_next_id()`.
pub open spec fn saves<'a, T: Clone>(
    before: InMemoryRepository<'a, T>,
    after: InMemoryRepository<'a, T>,
    item: T,
) -> bool {
    &&& before.spec_next_id() < u64::MAX
    &&& after.contents() == before.contents().insert(before.spec_next_id() as u64, item)
    &&& after.spec_next_id() == before.spec_next_id() + 1
}

/// Two items saved one after the other into an empty store are each found
/// under the identity that its save used, and the store then counts two.
pub proof fn lemma_two_saves_found<'a, T: Clone>(
    s0: InMemoryRepository<'a, T>,
    s1: InMemoryRepository<'a, T>,
    s2: InMemoryRepository<'a, T>,
    i1: T,
    i2: T,
)
    requires
        s0.contents() == Map::<u64, T>::empty(),
        saves(s0, s1, i1),
        saves(s1, s2, i2),
    ensures
        s2.contents().contains_key(s0.spec_next_id() as u64),
        s2.contents()[s0.spec_next_id() as u64] == i1,
        s2.contents().contains_key(s1.spec_next_id() as u64),
        s2.contents()[s1.spec_next_id() as u64] == i2,
        s2.contents().len() == 2,
{
    let id1 = s0.spec_next_id() as u64;
    let id2 = s1.spec_next_id() as u64;
    assert(id1 != id2);
    assert(s2.contents().dom() =~= set![id1, id2]);
    assert(set![id1].insert(id2).len() == 2) by {
        assert(set![id1].len() == 1);
    }
}

impl<'a, T: Clone> Repository<T> for InMemoryRepository<'a, T> {
    type Error = &'static str;

    closed spec fn contents(&self) -> Map<u64, T> {
        self.items@
    }

    /// Stores `item` under the allocator's next identity; fails, storing
    /// nothing, only once the identity space is used up.
    fn save(&mut self, item: T) -> (r: Result<(), Self::Error>)
        ensures
            r is Ok <==> old(self).spec_next_id() < u64::MAX,
            r is Ok ==> saves(*old(self), *final(self), item),
            r is Err ==> final(self).contents() == old(self).contents() && final(self).spec_next_id()
                == old(self).spec_next_id(),
            final(self).spec_first_id() == old(self).spec_first_id(),
    {
        proof {
            use_type_invariant(&*self);
        }
        let mut taken = InMemoryRepository::new();
        std::mem::swap(self, &mut taken);
        proof {
            use_type_invariant(&taken);
        }
        let InMemoryRepository { mut items, first_id, mut allocator, _marker } = taken;
        let r = match allocator.next() {
            Some(id) => {
                proof {
                    assert(!items@.contains_key(id));
                }
                items.insert(id, item);
                Ok(())
            },
            None => Err("identity space exhausted"),
        };
        *self = InMemoryRepository { items, first_id, allocator, _marker };
        proof {
            let id = old(self).spec_next_id() as u64;
            if r is Ok {
                assert(!old(self).contents().contains_key(id));
                assert(self.contents() == old(self).contents().insert(id, item));
            }
        }
        r
    }

    /// The value stored under `id`; there is one exactly when `id` was
    /// issued to this store.
    fn find_by_id(&self, id: u64) -> (r: Option<&T>)
        ensures
            r is Some <==> self.spec_first_id() <= id < self.spec_next_id(),
    {
        proof {
            use_type_invariant(self);
        }
        self.items.get(&id)
    }

    fn find_all(&self) -> (r: Vec<&T>) {
        let mut out: Vec<&T> = Vec::new();
        let ghost mut ids: Seq<u64> = Seq::empty();
        let ghost pairs = spec_hash_map_iter(&self.items).remaining();
        for pair in it: self.items.iter()
            invariant
                it.seq() == pairs,
                pairs == spec_hash_map_iter(&self.items).remaining(),
                out@.len() == it.index(),
                ids.len() == it.index(),
                forall|i: int| 0 <= i < it.index() ==> ids[i] == *pairs[i].0 && out@[i] == pairs[i].1,
        {
            let (k, v) = pair;
            out.push(v);
            proof {
                ids = ids.push(*k);
            }
        }
        proof {
            let m = self.items@;
            assert(pairs.len() == m.dom().len());
            assert forall|i: int| 0 <= i < ids.len() implies *out@[i] == m[ids[i]]
                && m.contains_key(ids[i]) by {
                assert(m.contains_key(*pairs[i].0));
            }
            assert forall|k: u64| m.contains_key(k) implies ids.to_set().contains(k) by {
                assert(pairs.contains((&k, &m[k])));
                let i = choose|i: int| 0 <= i < pairs.len() && pairs[i] == (&k, &m[k]);
                assert(ids[i] == k);
            }
            assert(ids.to_set() =~= m.dom());
            assert forall|i: int, j: int| 0 <= i < ids.len() && 0 <= j < ids.len() && i != j
                implies ids[i] != ids[j] by {
                assert(m.contains_key(*pairs[i].0));
                assert(m.contains_key(*pairs[j].0));
                if ids[i] == ids[j] {
                    assert(pairs[i] == pairs[j]);
                }
            }
        }
        out
    }
}

} // verus!
