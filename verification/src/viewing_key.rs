//! The authentication token ("viewing key") that gates read-only
//! queries: issued from the contract seed and the transaction context,
//! stored only as a one-way hash, and checked against that hash.
use vstd::prelude::*;

use crate::crypto::{base64_encode, base64_of, sha256_of, sha_256, str_bytes, utf8_of,
    vk_material, vk_material_of};
use crate::msg::Env;

verus! {

use vstd::string::StringExecFns;

pub const VIEWING_KEY_SIZE: usize = 32;

#[derive(Debug, PartialEq)]
pub struct ViewingKey(pub String);

impl View for ViewingKey {
    type V = Seq<char>;

    open spec fn view(&self) -> Seq<char> {
        self.0@
    }
}

impl Clone for ViewingKey {
    fn clone(&self) -> (r: Self)
        ensures
            r@ == self@,
    {
        ViewingKey(self.0.clone())
    }
}

impl ViewingKey {
    /// The token text that issuance derives: a fixed prefix followed by
    /// the base64 of a digest of the seed and the transaction context.
    pub open spec fn key_of(
        seed: Seq<u8>,
        height: u64,
        time: u64,
        sender: Seq<char>,
        entropy: Seq<char>,
    ) -> Seq<char> {
        "anubis_key_"@ + base64_of(vk_material_of(seed, height, time, sender, entropy))
    }

    /// The stored one-way hash of a token text.
    pub open spec fn hash_of(key: Seq<char>) -> Seq<u8> {
        sha256_of(utf8_of(key))
    }

    pub fn new(env: &Env, seed: &[u8], entropy: &str) -> (r: ViewingKey)
        ensures
            r@ == Self::key_of(seed@, env.block_height, env.block_time, env.sender@, entropy@),
    {
        let digest = vk_material(
            seed,
            env.block_height,
            env.block_time,
            env.sender.as_str(),
            entropy,
        );
        let b64 = base64_encode(digest.as_slice());
        let mut s = String::from_str("anubis_key_");
        s.append(b64.as_str());
        ViewingKey(s)
    }

    pub fn to_hashed(&self) -> (r: Vec<u8>)
        ensures
            r@ == Self::hash_of(self@),
            r@.len() == 32,
    {
        let bytes = str_bytes(self.0.as_str());
        sha_256(bytes.as_slice())
    }

    /// Compares the hash of this token against a stored hash.  The
    /// comparison runs over the whole buffer whether or not a prefix
    /// already differs.
    pub fn check_viewing_key(&self, hashed_pw: &[u8]) -> (r: bool)
        ensures
            r == (Self::hash_of(self@) == hashed_pw@),
    {
        let mine = self.to_hashed();
        if mine.len() != hashed_pw.len() {
            return false;
        }
        let n = mine.len();
        let mut i: usize = 0;
        let mut same: bool = true;
        while i < n
            invariant
                n == mine@.len(),
                n == hashed_pw@.len(),
                i <= n,
                same == (forall|j: int| 0 <= j < i as int ==> mine@[j] == hashed_pw@[j]),
            decreases n - i,
        {
            if mine[i] != hashed_pw[i] {
                same = false;
            }
            i += 1;
        }
        proof {
            if same {
                assert(mine@ =~= hashed_pw@);
            }
        }
        same
    }

    /// The token text, for callers that must retain it.
    pub fn to_string(&self) -> (r: String)
        ensures
            r@ == self@,
    {
        self.0.clone()
    }
}

} // verus!
