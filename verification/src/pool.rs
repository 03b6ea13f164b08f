//! The agents kept per base URL: each key gets one slot, made once and found
//! again on every later request for the same key.

use vstd::prelude::*;

use crate::origin::{agent_key_of, host_or_default, lemma_agent_key_injective, port_or_default, valid_scheme, UrlPartsView};

verus! {

/// The keys of the agents made so far; the agent for `keys[i]` sits in slot `i`.
pub struct AgentPool {
    keys: Vec<String>,
}

/// Where a key's agent sits after a lookup, as `(keys after, slot, made now)`:
/// a known key keeps its slot; a new key gets the next slot.
pub open spec fn pool_slot(keys: Seq<Seq<char>>, k: Seq<char>) -> (Seq<Seq<char>>, int, bool) {
    if keys.contains(k) {
        (keys, keys.index_of(k), false)
    } else {
        (keys.push(k), keys.len() as int, true)
    }
}

impl View for AgentPool {
    type V = Seq<Seq<char>>;

    closed spec fn view(&self) -> Seq<Seq<char>> {
        self.keys@.map_values(|k: String| k@)
    }
}

impl AgentPool {
    /// No key occurs twice.
    #[verifier::type_invariant]
    closed spec fn keys_distinct(self) -> bool {
        self@.no_duplicates()
    }

    /// A pool with no agent yet.
    pub fn new() -> (p: Self)
        ensures
            p@ == Seq::<Seq<char>>::empty(),
            p@.no_duplicates(),
    {
        let p = AgentPool { keys: Vec::new() };
        assert(p@ =~= Seq::<Seq<char>>::empty());
        p
    }

    /// The number of slots in use.
    pub fn len(&self) -> (n: usize)
        ensures
            n == self@.len(),
    {
        self.keys.len()
    }

    /// The slot of a key, if it has one.
    pub fn find(&self, key: &String) -> (r: Option<usize>)
        ensures
            match r {
                Some(i) => i < self@.len() && self@[i as int] == key@,
                None => !self@.contains(key@),
            },
    {
        let mut i: usize = 0;
        while i < self.keys.len()
            invariant
                i <= self.keys@.len(),
                self@ == self.keys@.map_values(|k: String| k@),
                forall|j: int| 0 <= j < i ==> self@[j] != key@,
            decreases self.keys@.len() - i,
        {
            if self.keys[i] == *key {
                return Some(i);
            }
            i = i + 1;
        }
        None
    }

    /// The slot for a key, and whether it was made by this call: a known key
    /// keeps its slot, a new key is added at the next slot.
    pub fn slot_for(&mut self, key: String) -> (r: (usize, bool))
        ensures
            (final(self)@, r.0 as int, r.1) == pool_slot(old(self)@, key@),
            final(self)@.no_duplicates(),
    {
        proof {
            use_type_invariant(&*self);
        }
        match self.find(&key) {
            Some(i) => {
                proof {
                    let j = self@.index_of(key@);
                    assert(self@[j] == key@);
                    assert(j == i);
                    assert(self@.no_duplicates());
                }
                (i, false)
            },
            None => {
                let n = self.keys.len();
                let ghost before = self@;
                let mut keys: Vec<String> = Vec::new();
                std::mem::swap(&mut keys, &mut self.keys);
                assert(keys@.map_values(|k: String| k@) == before);
                keys.push(key);
                assert(keys@.map_values(|k: String| k@) =~= before.push(key@));
                assert(before.no_duplicates());
                self.keys = keys;
                (n, true)
            },
        }
    }
}

/// Law: asking again for a key that was just looked up finds the same slot,
/// makes nothing and leaves the pool as it was.
pub proof fn lemma_slot_stable(keys: Seq<Seq<char>>, k: Seq<char>)
    ensures
        ({
            let (after, slot, _) = pool_slot(keys, k);
            pool_slot(after, k) == (after, slot, false)
        }),
        pool_slot(keys, k).0.len() == keys.len() + (if pool_slot(keys, k).2 { 1int } else { 0 }),
        0 <= pool_slot(keys, k).1 < pool_slot(keys, k).0.len(),
        pool_slot(keys, k).0[pool_slot(keys, k).1] == k,
{
    let (after, slot, _) = pool_slot(keys, k);
    if !keys.contains(k) {
        assert(after[keys.len() as int] == k);
        assert(after.contains(k));
    }
}


/// Law: after the agent for URL base `a` is looked up, the lookup for URL
/// base `b` lands in the same slot exactly when both bases have the same
/// scheme, host (an absent host counting as `127.0.0.1`) and port (an absent
/// port counting as 80).
pub proof fn lemma_shared_agent_iff_same_base(keys: Seq<Seq<char>>, a: UrlPartsView, b: UrlPartsView)
    requires
        valid_scheme(a.0),
        valid_scheme(b.0),
    ensures
        ({
            let (after, slot_a, _) = pool_slot(keys, agent_key_of(a));
            let (_, slot_b, _) = pool_slot(after, agent_key_of(b));
            (slot_a == slot_b) <==> (a.0 == b.0 && host_or_default(a) == host_or_default(b)
                && port_or_default(a) == port_or_default(b))
        }),
{
    let ka = agent_key_of(a);
    let kb = agent_key_of(b);
    lemma_agent_key_injective(a, b);
    lemma_slot_stable(keys, ka);
    let (after, slot_a, _) = pool_slot(keys, ka);
    lemma_slot_stable(after, kb);
    let (after_b, slot_b, _) = pool_slot(after, kb);
    if slot_a == slot_b {
        if after.contains(kb) {
            assert(after_b == after);
        } else {
            assert(slot_b == after.len());
        }
        assert(ka == kb);
    }
}

} // verus!
