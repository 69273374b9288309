//! The contract-level configuration record and the viewing-key shelf.
use vstd::prelude::*;

use crate::store::{Store, StoreV};
use crate::viewing_key::ViewingKey;

verus! {

/// The configuration written once at contract initialization.
#[derive(Debug)]
pub struct State {
    pub owner: String,
    pub prng_seed: Vec<u8>,
}

pub struct StateV {
    pub owner: Seq<char>,
    pub prng_seed: Seq<u8>,
}

impl View for State {
    type V = StateV;

    open spec fn view(&self) -> StateV {
        StateV { owner: self.owner@, prng_seed: self.prng_seed@ }
    }
}

impl DeepView for State {
    type V = StateV;

    open spec fn deep_view(&self) -> StateV {
        self.view()
    }
}

impl Clone for State {
    fn clone(&self) -> (r: Self)
        ensures
            r@ == self@,
    {
        let mut prng_seed: Vec<u8> = Vec::new();
        let mut i: usize = 0;
        while i < self.prng_seed.len()
            invariant
                i <= self.prng_seed.len(),
                prng_seed@ == self.prng_seed@.take(i as int),
            decreases self.prng_seed.len() - i,
        {
            prng_seed.push(self.prng_seed[i]);
            proof {
                assert(prng_seed@ =~= self.prng_seed@.take(i as int + 1));
            }
            i += 1;
        }
        proof {
            assert(prng_seed@ =~= self.prng_seed@);
        }
        State { owner: self.owner.clone(), prng_seed }
    }
}

/// Stores the one-way hash of a freshly issued token, overwriting any
/// prior token of the account.
pub fn write_viewing_key(store: &mut Store, owner: &String, key: &ViewingKey)
    requires
        old(store).wf(),
    ensures
        final(store).wf(),
        final(store)@ == (StoreV {
            viewing_keys: old(store)@.viewing_keys.insert(owner@, ViewingKey::hash_of(key@)),
            ..old(store)@
        }),
{
    let hashed = key.to_hashed();
    proof {
        crate::store::lemma_vec_u8_deep_view(hashed);
    }
    store.viewing_keys.insert(owner.clone(), hashed);
}

/// Reads the stored token hash of an account, if one was ever issued.
pub fn read_viewing_key<'a>(store: &'a Store, owner: &String) -> (r: Option<&'a Vec<u8>>)
    requires
        store.wf(),
    ensures
        match r {
            Some(h) => store@.viewing_keys.contains_key(owner@) && h@ == store@.viewing_keys[owner@],
            None => !store@.viewing_keys.contains_key(owner@),
        },
{
    store.viewing_keys.get(owner)
}

} // verus!
