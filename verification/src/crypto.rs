//! Trusted bridges to the cryptographic primitives the contract relies
//! on.  Each result is deterministic in the arguments alone, so it is
//! given a name that the verified contracts speak of.
use vstd::prelude::*;

verus! {

/// The SHA-256 digest of a byte string.
pub uninterp spec fn sha256_of(data: Seq<u8>) -> Seq<u8>;

/// The UTF-8 encoding of a character string.
pub uninterp spec fn utf8_of(s: Seq<char>) -> Seq<u8>;

/// The standard base64 text of a byte string.
pub uninterp spec fn base64_of(data: Seq<u8>) -> Seq<char>;

/// The 32-byte digest that token issuance derives from the contract seed
/// and the transaction context (block height, block time, sender, and
/// caller-chosen entropy).
pub uninterp spec fn vk_material_of(
    seed: Seq<u8>,
    height: u64,
    time: u64,
    sender: Seq<char>,
    entropy: Seq<char>,
) -> Seq<u8>;

/// Relies on secret_toolkit::crypto::sha_256: the SHA-256 digest of the
/// input, 32 bytes, a function of the input alone.
#[verifier::external_body]
pub fn sha_256(data: &[u8]) -> (r: Vec<u8>)
    ensures
        r@ == sha256_of(data@),
        r@.len() == 32,
{
    secret_toolkit::crypto::sha_256(data).to_vec()
}

/// Relies on str::as_bytes: the UTF-8 encoding of the string, a function
/// of its characters alone.
#[verifier::external_body]
pub fn str_bytes(s: &str) -> (r: Vec<u8>)
    ensures
        r@ == utf8_of(s@),
{
    s.as_bytes().to_vec()
}

/// Relies on base64::encode: the standard-alphabet, padded base64 text of
/// the input, a function of the input alone.
#[verifier::external_body]
pub fn base64_encode(data: &[u8]) -> (r: String)
    ensures
        r@ == base64_of(data@),
{
    base64::encode(data)
}

/// Relies on secret_toolkit::crypto::ContractPrng (new and rand_bytes,
/// a ChaCha stream seeded by SHA-256 of seed and entropy) and on
/// secret_toolkit::crypto::sha_256: a 32-byte digest derived
/// deterministically from the seed and the transaction context.
#[verifier::external_body]
pub fn vk_material(seed: &[u8], height: u64, time: u64, sender: &str, entropy: &str) -> (r: Vec<
    u8,
>)
    ensures
        r@ == vk_material_of(seed@, height, time, sender@, entropy@),
        r@.len() == 32,
{
    let mut rng_entropy: Vec<u8> = Vec::new();
    rng_entropy.extend_from_slice(&height.to_be_bytes());
    rng_entropy.extend_from_slice(&time.to_be_bytes());
    rng_entropy.extend_from_slice(sender.as_bytes());
    rng_entropy.extend_from_slice(entropy.as_bytes());
    let mut rng = secret_toolkit::crypto::ContractPrng::new(seed, &rng_entropy);
    let rand_slice = rng.rand_bytes();
    secret_toolkit::crypto::sha_256(&rand_slice).to_vec()
}

} // verus!
