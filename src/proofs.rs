use vstd::prelude::*;
use parity_scale_codec::{Decode, Encode};
use crate::types::{BlockHash, Error, ParachainHeaderProofs};

verus! {

/// What the 64-bit xxHash of `data` is.
pub uninterp spec fn twox_64_of(data: Seq<u8>) -> Seq<u8>;

/// What the 128-bit xxHash of `data` is.
pub uninterp spec fn twox_128_of(data: Seq<u8>) -> Seq<u8>;

/// The value that a Merkle-Patricia state proof made of `nodes` shows under
/// `key` in the trie rooted at `root`; none where the proof fails or shows
/// the key absent.
pub uninterp spec fn trie_value_at(root: Seq<u8>, nodes: Seq<Seq<u8>>, key: Seq<u8>) -> Option<Seq<u8>>;

/// Whether a compact trie proof shows `key` holding `value` in the trie
/// rooted at `root`.
pub uninterp spec fn trie_proof_verifies(root: Seq<u8>, proof: Seq<Seq<u8>>, key: Seq<u8>, value: Seq<u8>) -> bool;

/// The block number and extrinsics root of the header that `bytes` begin
/// with, where they decode as one.
pub uninterp spec fn para_header_of(bytes: Seq<u8>) -> Option<(u32, Seq<u8>)>;

/// Relies on sp_crypto_hashing::twox_64, the 64-bit xxHash with seed 0.
#[verifier::external_body]
fn twox_64(data: &[u8]) -> (r: [u8; 8])
    ensures
        r@ == twox_64_of(data@),
{
    sp_crypto_hashing::twox_64(data)
}

/// Relies on sp_crypto_hashing::twox_128, two 64-bit xxHashes with seeds 0 and 1.
#[verifier::external_body]
fn twox_128(data: &[u8]) -> (r: [u8; 16])
    ensures
        r@ == twox_128_of(data@),
{
    sp_crypto_hashing::twox_128(data)
}

/// Relies on sp_trie::StorageProof::into_memory_db and sp_trie::read_trie_value
/// (version-0 layout, Blake2-256 hasher): reads `key` from the trie at `root`
/// through the proof's nodes alone.
#[verifier::external_body]
fn read_proof_value(root: &BlockHash, nodes: &Vec<Vec<u8>>, key: &Vec<u8>) -> (r: Option<Vec<u8>>)
    ensures
        match r {
            None => trie_value_at(root@, nodes.deep_view(), key@) is None,
            Some(v) => trie_value_at(root@, nodes.deep_view(), key@) == Some(v@),
        },
{
    let db = sp_trie::StorageProof::new(nodes.clone()).into_memory_db::<sp_core::Blake2Hasher>();
    sp_trie::read_trie_value::<sp_trie::LayoutV0<sp_core::Blake2Hasher>, _>(
        &db,
        &sp_core::H256(*root),
        key,
        None,
        None,
    ).ok().flatten()
}

/// Relies on sp_trie::verify_trie_proof (version-0 layout, Blake2-256 hasher)
/// for a single key and the value it must hold.
#[verifier::external_body]
fn verify_single_proof(root: &BlockHash, proof: &Vec<Vec<u8>>, key: &Vec<u8>, value: &Vec<u8>) -> (r: bool)
    ensures
        r == trie_proof_verifies(root@, proof.deep_view(), key@, value@),
{
    let items = vec![(key.clone(), Some(value.clone()))];
    sp_trie::verify_trie_proof::<sp_trie::LayoutV0<sp_core::Blake2Hasher>, _, _, _>(
        &sp_core::H256(*root),
        proof,
        &items,
    ).is_ok()
}

/// Relies on the SCALE decoding of sp_runtime::generic::Header with a `u32`
/// number and the Blake2-256 hash; bytes after the header are left unread.
#[verifier::external_body]
fn decode_para_header(bytes: &Vec<u8>) -> (r: Option<(u32, BlockHash)>)
    ensures
        match r {
            None => para_header_of(bytes@) is None,
            Some((n, root)) => para_header_of(bytes@) == Some((n, root@)),
        },
{
    sp_runtime::generic::Header::<u32, sp_runtime::traits::BlakeTwo256>::decode(&mut &bytes[..])
        .ok()
        .map(|h| (h.number, h.extrinsics_root.0))
}

/// Relies on the SCALE compact encoding of parity_scale_codec::Compact<u32>:
/// a value below 64 takes one byte, the value shifted left by two.
#[verifier::external_body]
fn compact_u32(n: u32) -> (r: Vec<u8>)
    ensures
        n < 64 ==> r@ == seq![(n * 4) as u8],
{
    parity_scale_codec::Compact(n).encode()
}

/// The little-endian bytes of `n`, its SCALE encoding.
pub open spec fn le_bytes(n: u32) -> Seq<u8> {
    seq![
        (n % 256) as u8,
        ((n / 256) % 256) as u8,
        ((n / 65536) % 256) as u8,
        (n / 16777216) as u8,
    ]
}

/// The pallet name under which the relay chain keeps parachain heads.
pub open spec fn paras_prefix() -> Seq<u8> {
    seq![80u8, 97, 114, 97, 115]
}

/// The storage item name of parachain heads.
pub open spec fn heads_prefix() -> Seq<u8> {
    seq![72u8, 101, 97, 100, 115]
}

/// The relay-chain storage key under which the head of parachain `para_id`
/// is kept: the hashed pallet and item names, then the hashed and the plain
/// encoding of the id.
pub open spec fn para_head_key(para_id: u32) -> Seq<u8> {
    twox_128_of(paras_prefix()) + twox_128_of(heads_prefix()) + twox_64_of(le_bytes(para_id))
        + le_bytes(para_id)
}

/// The key under which a trie of extrinsics keeps extrinsic 0.
pub open spec fn first_extrinsic_key() -> Seq<u8> {
    seq![0u8]
}

/// Appends `s` to `v`.
fn append_bytes(v: &mut Vec<u8>, s: &[u8])
    ensures
        final(v)@ == old(v)@ + s@,
{
    let mut i: usize = 0;
    while i < s.len()
        invariant
            i <= s@.len(),
            v@ == old(v)@ + s@.take(i as int),
        decreases s@.len() - i,
    {
        v.push(s[i]);
        assert(s@.take(i + 1) =~= s@.take(i as int).push(s@[i as int]));
        i = i + 1;
    }
    assert(s@.take(s@.len() as int) =~= s@);
}

/// The little-endian bytes of `n`.
pub fn encode_u32(n: u32) -> (r: Vec<u8>)
    ensures
        r@ == le_bytes(n),
{
    let r = vec![
        (n % 256) as u8,
        ((n / 256) % 256) as u8,
        ((n / 65536) % 256) as u8,
        (n / 16777216) as u8,
    ];
    assert(r@ =~= le_bytes(n));
    r
}

/// The relay-chain storage key of the head of parachain `para_id`.
pub fn parachain_header_storage_key(para_id: u32) -> (r: Vec<u8>)
    ensures
        r@ == para_head_key(para_id),
{
    let paras: Vec<u8> = vec![80u8, 97, 114, 97, 115];
    let heads: Vec<u8> = vec![72u8, 101, 97, 100, 115];
    assert(paras@ =~= paras_prefix());
    assert(heads@ =~= heads_prefix());
    let id = encode_u32(para_id);
    let mut key: Vec<u8> = Vec::new();
    let p = twox_128(paras.as_slice());
    append_bytes(&mut key, p.as_slice());
    let h = twox_128(heads.as_slice());
    append_bytes(&mut key, h.as_slice());
    let t = twox_64(id.as_slice());
    append_bytes(&mut key, t.as_slice());
    append_bytes(&mut key, id.as_slice());
    assert(key@ =~= para_head_key(para_id));
    key
}

/// What the proofs for one finalized relay block show: the height of the
/// parachain header stored under `key` in the state rooted at `state_root`,
/// once its first extrinsic is proven against the header's extrinsics root.
pub open spec fn entry_outcome(state_root: BlockHash, proofs: ParachainHeaderProofs, key: Seq<u8>) -> Result<u32, Error> {
    match trie_value_at(state_root@, proofs.state_proof.deep_view(), key) {
        None => Err(Error::StateProofInvalid),
        Some(value) => match para_header_of(value) {
            None => Err(Error::HeaderDecodeError),
            Some((number, extrinsics_root)) => if trie_proof_verifies(
                extrinsics_root,
                proofs.extrinsic_proof.deep_view(),
                first_extrinsic_key(),
                proofs.extrinsic@,
            ) {
                Ok(number)
            } else {
                Err(Error::ExtrinsicProofInvalid)
            },
        },
    }
}

/// Checks the proofs for one finalized relay block and returns the proven
/// parachain height.
pub fn check_parachain_entry(state_root: &BlockHash, proofs: &ParachainHeaderProofs, key: &Vec<u8>) -> (r: Result<u32, Error>)
    ensures
        r == entry_outcome(*state_root, *proofs, key@),
{
    let value = match read_proof_value(state_root, &proofs.state_proof, key) {
        None => {
            return Err(Error::StateProofInvalid);
        },
        Some(v) => v,
    };
    let (number, extrinsics_root) = match decode_para_header(&value) {
        None => {
            return Err(Error::HeaderDecodeError);
        },
        Some(fields) => fields,
    };
    let xkey = compact_u32(0);
    assert(xkey@ =~= first_extrinsic_key());
    if verify_single_proof(&extrinsics_root, &proofs.extrinsic_proof, &xkey, &proofs.extrinsic) {
        Ok(number)
    } else {
        Err(Error::ExtrinsicProofInvalid)
    }
}

} // verus!
