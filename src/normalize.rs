//! Scope-aware identity of unknown identifiers: a 64-bit hash of the lexeme's
//! bytes together with the brace depth at which it occurs.
use vstd::prelude::*;

verus! {

/// The 128-bit XXH3 hash of a byte string.
pub uninterp spec fn xxh3_128_of(input: Seq<u8>) -> u128;

/// Relies on xxhash_rust::xxh3::xxh3_128: the hash depends on the bytes alone.
#[verifier::external_body]
fn xxh3_128(input: &[u8]) -> (r: u128)
    ensures
        r == xxh3_128_of(input@),
{
    xxhash_rust::xxh3::xxh3_128(input)
}

/// The little-endian encoding of a 64-bit number.
pub open spec fn le_bytes(n: u64) -> Seq<u8> {
    seq![
        (n % 0x100) as u8,
        ((n / 0x100) % 0x100) as u8,
        ((n / 0x10000) % 0x100) as u8,
        ((n / 0x1000000) % 0x100) as u8,
        ((n / 0x100000000) % 0x100) as u8,
        ((n / 0x10000000000) % 0x100) as u8,
        ((n / 0x1000000000000) % 0x100) as u8,
        ((n / 0x100000000000000) % 0x100) as u8,
    ]
}

/// The bytes that are hashed for a name at a brace depth.
pub open spec fn identity_input(name: Seq<u8>, brace_level: usize) -> Seq<u8> {
    name + le_bytes(brace_level as u64)
}

/// The two halves of a 128-bit hash folded together by exclusive or.
pub open spec fn fold_spec(h: u128) -> u64 {
    ((h >> 64u128) as u64) ^ (h as u64)
}

/// The identity of a name at a brace depth.
pub open spec fn identity(name: Seq<u8>, brace_level: usize) -> u64 {
    fold_spec(xxh3_128_of(identity_input(name, brace_level)))
}

/// Folds a 128-bit hash into 64 bits.
pub fn fold_hash(h: u128) -> (r: u64)
    ensures
        r == fold_spec(h),
{
    ((h >> 64u128) as u64) ^ (h as u64)
}

/// Computes the scope-aware identity of `name` at depth `brace_level`.
pub fn normalize(name: &[u8], brace_level: usize) -> (r: u64)
    ensures
        r == identity(name@, brace_level),
{
    let mut buffer: Vec<u8> = Vec::new();
    buffer.extend_from_slice(name);
    let n = brace_level as u64;
    buffer.push((n % 0x100) as u8);
    buffer.push(((n / 0x100) % 0x100) as u8);
    buffer.push(((n / 0x10000) % 0x100) as u8);
    buffer.push(((n / 0x1000000) % 0x100) as u8);
    buffer.push(((n / 0x100000000) % 0x100) as u8);
    buffer.push(((n / 0x10000000000) % 0x100) as u8);
    buffer.push(((n / 0x1000000000000) % 0x100) as u8);
    buffer.push(((n / 0x100000000000000) % 0x100) as u8);
    assert(buffer@ =~= identity_input(name@, brace_level));
    let h = xxh3_128(buffer.as_slice());
    fold_hash(h)
}

} // verus!
