//! Deterministic sharding of subjects into traffic splits.
//!
//! A subject is assigned to a shard by hashing the pair of an allocation's
//! own selection key and the subject key into `0..total_shards` with the
//! 64-bit FNV-1a hash.  The hash is a pure function of the two keys, so the
//! same configuration and subject always land in the same shard, on every
//! machine and in every process.  Because the allocation's selection key is
//! used (never the flag key), renaming a flag does not move any subject to a
//! different shard.

use vstd::prelude::*;

verus! {

use vstd::string::StringSliceAdditionalSpecFns;

/// Offset basis of 64-bit FNV-1a.
pub const FNV_OFFSET_BASIS: u64 = 0xcbf2_9ce4_8422_2325;

/// Prime of 64-bit FNV-1a.
pub const FNV_PRIME: u64 = 0x0000_0100_0000_01b3;

/// One step of 64-bit FNV-1a: xor the next byte into the state, then
/// multiply by the FNV prime modulo `2^64`.
pub open spec fn fnv1a_step(h: u64, b: u8) -> u64 {
    vstd::wrapping::u64_specs::wrapping_mul(h ^ (b as u64), FNV_PRIME)
}

/// State of 64-bit FNV-1a after absorbing `bytes`, starting from state `h`.
pub open spec fn fnv1a_from(h: u64, bytes: Seq<u8>) -> u64
    decreases bytes.len(),
{
    if bytes.len() == 0 {
        h
    } else {
        fnv1a_from(fnv1a_step(h, bytes.first()), bytes.drop_first())
    }
}

/// 64-bit FNV-1a hash of `bytes`.
pub open spec fn fnv1a(bytes: Seq<u8>) -> u64 {
    fnv1a_from(FNV_OFFSET_BASIS, bytes)
}

/// The byte string that is hashed for a `(selection key, subject key)` pair:
/// the UTF-8 bytes of the selection key, a `-` separator, the UTF-8 bytes of
/// the subject key.
pub open spec fn shard_input(salt: Seq<char>, subject: Seq<char>) -> Seq<u8> {
    vstd::utf8::encode_utf8(salt) + seq![45u8] + vstd::utf8::encode_utf8(subject)
}

/// Shard assigned to `subject` under selection key `salt`, in
/// `0..total_shards`.
pub open spec fn spec_shard_value(salt: Seq<char>, subject: Seq<char>, total_shards: u64) -> u64
    recommends
        total_shards > 0,
{
    fnv1a(shard_input(salt, subject)) % total_shards
}

/// Absorbing a concatenation is absorbing both halves in turn.
pub proof fn lemma_fnv1a_from_concat(h: u64, a: Seq<u8>, b: Seq<u8>)
    ensures
        fnv1a_from(h, a + b) == fnv1a_from(fnv1a_from(h, a), b),
    decreases a.len(),
{
    if a.len() == 0 {
        assert(a + b =~= b);
    } else {
        assert((a + b).drop_first() =~= a.drop_first() + b);
        lemma_fnv1a_from_concat(fnv1a_step(h, a.first()), a.drop_first(), b);
    }
}

/// Absorb every byte of `bytes` into the FNV-1a state `h`.
fn fnv1a_advance(h: u64, bytes: &[u8]) -> (r: u64)
    ensures
        r == fnv1a_from(h, bytes@),
{
    let mut state = h;
    let n = bytes.len();
    proof {
        assert(bytes@.subrange(0, n as int) =~= bytes@);
    }
    for i in 0..n
        invariant
            n == bytes@.len(),
            fnv1a_from(h, bytes@) == fnv1a_from(state, bytes@.subrange(i as int, n as int)),
    {
        let b = bytes[i];
        proof {
            let suffix = bytes@.subrange(i as int, n as int);
            assert(suffix.first() == b);
            assert(suffix.drop_first() =~= bytes@.subrange(i + 1, n as int));
        }
        state = (state ^ (b as u64)).wrapping_mul(FNV_PRIME);
    }
    proof {
        assert(bytes@.subrange(n as int, n as int) =~= Seq::<u8>::empty());
    }
    state
}

/// Shard assigned to `subject` under the selection key `salt`.
///
/// The result depends only on the two keys and `total_shards`: repeated
/// calls, other processes and other machines all compute the same value.
pub fn shard_value(salt: &str, subject: &str, total_shards: u64) -> (r: u64)
    requires
        total_shards > 0,
    ensures
        r == spec_shard_value(salt@, subject@, total_shards),
        r < total_shards,
{
    let h0 = fnv1a_advance(FNV_OFFSET_BASIS, salt.as_bytes());
    let h1 = (h0 ^ 45u64).wrapping_mul(FNV_PRIME);
    let h2 = fnv1a_advance(h1, subject.as_bytes());
    proof {
        let sa = salt.spec_bytes();
        let sep = seq![45u8];
        let su = subject.spec_bytes();
        lemma_fnv1a_from_concat(FNV_OFFSET_BASIS, sa, sep + su);
        lemma_fnv1a_from_concat(fnv1a_from(FNV_OFFSET_BASIS, sa), sep, su);
        assert(sa + (sep + su) =~= shard_input(salt@, subject@));
        assert(sep.first() == 45u8);
        assert(sep.drop_first() =~= Seq::<u8>::empty());
        assert(fnv1a_from(h0, sep) == fnv1a_from(fnv1a_step(h0, 45u8), sep.drop_first()));
        assert(fnv1a_from(h1, sep.drop_first()) == h1);
        assert(h1 == fnv1a_step(h0, 45u8));
        assert(h2 == fnv1a(shard_input(salt@, subject@)));
    }
    h2 % total_shards
}

} // verus!
