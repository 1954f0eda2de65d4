use grandpa_verifier::ancestry::AncestryChain;
use grandpa_verifier::proofs::{check_parachain_entry, encode_u32, parachain_header_storage_key};
use grandpa_verifier::step::{
    contains_hash, extreme_indices, verify_parachain_headers_with_grandpa_finality_proof,
    verify_with_justification, FixedVerdict,
};
use grandpa_verifier::types::{
    same_hash, Authority, BlockHash, ClientState, Error, FinalityProof, Header, ParachainHeaderProofs,
    ParachainHeadersWithFinalityProof,
};
use parity_scale_codec::Encode;
use sp_core::Blake2Hasher;
use sp_trie::{LayoutV0, MemoryDB, TrieDBMutBuilder, TrieMut};

const PARA_ID: u32 = 2000;

fn hash_of(n: u32) -> BlockHash {
    let mut h = [0xAAu8; 32];
    h[..4].copy_from_slice(&n.to_le_bytes());
    h
}

fn relay_header(n: u32) -> Header {
    Header {
        hash: hash_of(n),
        parent_hash: hash_of(n - 1),
        number: n,
        state_root: [0u8; 32],
        extrinsics_root: [0u8; 32],
        scheduled_change: None,
    }
}

fn build_trie(entries: &[(Vec<u8>, Vec<u8>)]) -> (MemoryDB<Blake2Hasher>, sp_core::H256) {
    let mut db = MemoryDB::<Blake2Hasher>::default();
    let mut root = sp_core::H256::default();
    {
        let mut t = TrieDBMutBuilder::<LayoutV0<Blake2Hasher>>::new(&mut db, &mut root).build();
        for (k, v) in entries {
            t.insert(k, v).unwrap();
        }
    }
    (db, root)
}

fn all_nodes(mut db: MemoryDB<Blake2Hasher>) -> Vec<Vec<u8>> {
    db.drain().into_iter().filter(|(_, (_, rc))| *rc > 0).map(|(_, (v, _))| v).collect()
}

/// Proofs of a parachain header of height `para_number` under a relay state
/// whose root is returned, with `stored` replacing the encoded header.
fn para_fixture(para_number: u32, stored: Option<Vec<u8>>) -> (BlockHash, ParachainHeaderProofs) {
    let extrinsic = vec![4u8, 3, 0, 0x0b, 0x20, 0x4e, 0, 0];
    let xkey = parity_scale_codec::Compact(0u32).encode();
    let (xdb, xroot) = build_trie(&[(xkey.clone(), extrinsic.clone())]);
    let extrinsic_proof =
        sp_trie::generate_trie_proof::<LayoutV0<Blake2Hasher>, _, _, _>(&xdb, xroot, &[xkey]).unwrap();
    let para_header = sp_runtime::generic::Header::<u32, sp_runtime::traits::BlakeTwo256> {
        parent_hash: sp_core::H256([7u8; 32]),
        number: para_number,
        state_root: sp_core::H256([8u8; 32]),
        extrinsics_root: xroot,
        digest: Default::default(),
    };
    let value = stored.unwrap_or_else(|| para_header.encode());
    let key = parachain_header_storage_key(PARA_ID);
    let (sdb, sroot) = build_trie(&[(key, value), (vec![1, 2, 3], vec![9, 9])]);
    let state_proof = all_nodes(sdb);
    (sroot.0, ParachainHeaderProofs { extrinsic_proof, extrinsic, state_proof })
}

fn client_state() -> ClientState {
    ClientState {
        latest_relay_hash: hash_of(100),
        latest_relay_height: 100,
        current_set_id: 1,
        current_authorities: vec![([1u8; 32], 1), ([2u8; 32], 1), ([3u8; 32], 1)],
        para_id: PARA_ID,
        latest_para_height: 40,
    }
}

/// Headers 101..=105, header 103 holding the parachain head of height 50.
fn bundle() -> ParachainHeadersWithFinalityProof {
    let (root, proofs) = para_fixture(50, None);
    let mut headers: Vec<Header> = (101..=105).map(relay_header).collect();
    headers[2].state_root = root;
    ParachainHeadersWithFinalityProof {
        finality_proof: FinalityProof {
            block: hash_of(105),
            justification: vec![1, 2, 3],
            unknown_headers: headers,
        },
        parachain_headers: vec![(hash_of(103), proofs)],
        latest_para_height: 50,
    }
}

fn accepting(target: u32) -> FixedVerdict {
    FixedVerdict { target: Some(hash_of(target)), valid: true }
}

fn run(bundle: ParachainHeadersWithFinalityProof) -> Result<ClientState, Error> {
    verify_parachain_headers_with_grandpa_finality_proof(client_state(), bundle, &accepting(105))
}

#[test]
fn end_to_end_finalizes_relay_and_parachain() {
    let s = run(bundle()).unwrap();
    assert_eq!(s.latest_relay_height, 105);
    assert_eq!(s.latest_relay_hash, hash_of(105));
    assert_eq!(s.latest_para_height, 50);
    assert_eq!(s.current_set_id, 1);
    assert_eq!(s.current_authorities, client_state().current_authorities);
    assert_eq!(s.para_id, PARA_ID);
}

#[test]
fn success_never_lowers_heights() {
    let before = client_state();
    let s = run(bundle()).unwrap();
    assert!(s.latest_relay_height >= before.latest_relay_height);
    assert!(s.latest_para_height >= before.latest_para_height);
}

#[test]
fn tampered_extrinsic_proof_is_refused() {
    let mut b = bundle();
    let proof = &mut b.parachain_headers[0].1.extrinsic_proof;
    let last = proof[0].len() - 1;
    proof[0][last] ^= 0xFF;
    assert_eq!(run(b).unwrap_err(), Error::ExtrinsicProofInvalid);
}

#[test]
fn other_extrinsic_is_refused() {
    let mut b = bundle();
    b.parachain_headers[0].1.extrinsic[0] ^= 1;
    assert_eq!(run(b).unwrap_err(), Error::ExtrinsicProofInvalid);
}

#[test]
fn empty_batch_is_refused() {
    let mut b = bundle();
    b.finality_proof.unknown_headers.clear();
    assert_eq!(run(b).unwrap_err(), Error::EmptyProof);
}

#[test]
fn claimed_block_below_highest_is_refused() {
    let mut b = bundle();
    b.finality_proof.block = hash_of(104);
    let r = verify_parachain_headers_with_grandpa_finality_proof(client_state(), b, &accepting(104));
    assert_eq!(r.unwrap_err(), Error::TargetMismatch);
}

#[test]
fn undecodable_justification_is_refused() {
    let v = FixedVerdict { target: None, valid: true };
    let r = verify_parachain_headers_with_grandpa_finality_proof(client_state(), bundle(), &v);
    assert_eq!(r.unwrap_err(), Error::DecodeError);
}

#[test]
fn justification_for_other_block_is_refused() {
    let r = verify_parachain_headers_with_grandpa_finality_proof(client_state(), bundle(), &accepting(104));
    assert_eq!(r.unwrap_err(), Error::JustificationTargetMismatch);
}

#[test]
fn missing_intermediate_header_is_refused() {
    let mut b = bundle();
    b.finality_proof.unknown_headers.remove(1);
    assert_eq!(run(b).unwrap_err(), Error::InvalidAncestry);
}

#[test]
fn fork_below_trusted_block_is_refused() {
    let mut b = bundle();
    let mut stray = relay_header(99);
    stray.hash = [0x55u8; 32];
    b.finality_proof.unknown_headers.push(stray);
    assert_eq!(run(b).unwrap_err(), Error::InvalidAncestry);
}

#[test]
fn batch_reaching_below_trusted_block_is_accepted() {
    let mut b = bundle();
    b.finality_proof.unknown_headers.insert(0, relay_header(100));
    b.finality_proof.unknown_headers.insert(0, relay_header(99));
    let s = run(b).unwrap();
    assert_eq!(s.latest_relay_height, 105);
    assert_eq!(s.latest_para_height, 50);
}

#[test]
fn unsigned_justification_is_refused() {
    let v = FixedVerdict { target: Some(hash_of(105)), valid: false };
    let r = verify_parachain_headers_with_grandpa_finality_proof(client_state(), bundle(), &v);
    assert_eq!(r.unwrap_err(), Error::InvalidJustification);
}

#[test]
fn proofs_outside_finalized_route_are_passed_over() {
    let mut b = bundle();
    let junk = ParachainHeaderProofs { extrinsic_proof: vec![vec![1]], extrinsic: vec![2], state_proof: vec![] };
    b.parachain_headers.insert(0, (hash_of(100), junk.clone()));
    b.parachain_headers.push((hash_of(200), junk));
    let s = run(b).unwrap();
    assert_eq!(s.latest_relay_height, 105);
    assert_eq!(s.latest_para_height, 50);
}

#[test]
fn no_proven_parachain_keeps_its_height() {
    let mut b = bundle();
    b.parachain_headers.clear();
    b.latest_para_height = 77;
    let s = run(b).unwrap();
    assert_eq!(s.latest_para_height, 40);
    assert_eq!(s.latest_relay_height, 105);
}

#[test]
fn wrong_state_root_is_refused() {
    let mut b = bundle();
    b.finality_proof.unknown_headers[2].state_root = [3u8; 32];
    assert_eq!(run(b).unwrap_err(), Error::StateProofInvalid);
}

#[test]
fn undecodable_parachain_header_is_refused() {
    let (root, proofs) = para_fixture(50, Some(vec![1, 2, 3]));
    let mut b = bundle();
    b.finality_proof.unknown_headers[2].state_root = root;
    b.parachain_headers[0].1 = proofs;
    assert_eq!(run(b).unwrap_err(), Error::HeaderDecodeError);
}

#[test]
fn claimed_parachain_height_must_match() {
    let mut b = bundle();
    b.latest_para_height = 51;
    assert_eq!(run(b).unwrap_err(), Error::ParaHeightMismatch);
}

#[test]
fn highest_proven_parachain_height_wins() {
    let (root, proofs) = para_fixture(52, None);
    let mut b = bundle();
    b.finality_proof.unknown_headers[3].state_root = root;
    b.parachain_headers.push((hash_of(104), proofs));
    b.latest_para_height = 52;
    assert_eq!(run(b).unwrap().latest_para_height, 52);
}

#[test]
fn scheduled_change_on_target_rotates_once() {
    let next: Vec<Authority> = vec![([9u8; 32], 5)];
    let mut b = bundle();
    b.finality_proof.unknown_headers[4].scheduled_change = Some(next.clone());
    let s = run(b).unwrap();
    assert_eq!(s.current_set_id, 2);
    assert_eq!(s.current_authorities, next);
}

#[test]
fn scheduled_change_on_intermediate_header_is_ignored() {
    let mut b = bundle();
    b.finality_proof.unknown_headers[2].scheduled_change = Some(vec![([9u8; 32], 5)]);
    let s = run(b).unwrap();
    assert_eq!(s.current_set_id, 1);
    assert_eq!(s.current_authorities, client_state().current_authorities);
}

#[test]
fn step_with_given_justification_answers() {
    let s = verify_with_justification(client_state(), bundle(), Some(hash_of(105)), true).unwrap();
    assert_eq!(s.latest_relay_height, 105);
    let e = verify_with_justification(client_state(), bundle(), Some(hash_of(105)), false).unwrap_err();
    assert_eq!(e, Error::InvalidJustification);
}

#[test]
fn storage_key_hashes_pallet_item_and_id() {
    let mut expected = sp_crypto_hashing::twox_128(b"Paras").to_vec();
    expected.extend_from_slice(&sp_crypto_hashing::twox_128(b"Heads"));
    expected.extend_from_slice(&sp_crypto_hashing::twox_64(&PARA_ID.to_le_bytes()));
    expected.extend_from_slice(&PARA_ID.to_le_bytes());
    assert_eq!(parachain_header_storage_key(PARA_ID), expected);
    assert_eq!(parachain_header_storage_key(PARA_ID).len(), 44);
}

#[test]
fn u32_encodes_little_endian() {
    assert_eq!(encode_u32(0x0102_0304), vec![4, 3, 2, 1]);
    assert_eq!(encode_u32(2000), 2000u32.encode());
}

#[test]
fn entry_check_yields_parachain_height() {
    let (root, proofs) = para_fixture(50, None);
    let key = parachain_header_storage_key(PARA_ID);
    assert_eq!(check_parachain_entry(&root, &proofs, &key), Ok(50));
    let other = parachain_header_storage_key(PARA_ID + 1);
    assert_eq!(check_parachain_entry(&root, &proofs, &other), Err(Error::StateProofInvalid));
}

#[test]
fn ancestry_walks_parent_links() {
    let chain = AncestryChain::new((101..=105).map(relay_header).collect());
    let route = chain.ancestry(&hash_of(100), &hash_of(105)).unwrap();
    assert_eq!(route, vec![hash_of(105), hash_of(104), hash_of(103), hash_of(102), hash_of(101)]);
    assert_eq!(chain.ancestry(&hash_of(103), &hash_of(103)).unwrap(), Vec::<BlockHash>::new());
    assert!(chain.ancestry(&hash_of(100), &hash_of(106)).is_err());
    assert!(chain.ancestry(&hash_of(99), &hash_of(105)).is_err());
    assert_eq!(chain.header(&hash_of(102)).unwrap().number, 102);
    assert!(chain.header(&hash_of(7)).is_none());
}

#[test]
fn ancestry_stops_on_a_cycle() {
    let mut a = relay_header(1);
    let mut b = relay_header(2);
    a.parent_hash = b.hash;
    b.parent_hash = a.hash;
    let chain = AncestryChain::new(vec![a, b]);
    assert!(chain.ancestry(&hash_of(50), &hash_of(2)).is_err());
}

#[test]
fn highest_is_last_of_ties_and_lowest_first() {
    let hs = vec![relay_header(5), relay_header(3), relay_header(5), relay_header(3)];
    assert_eq!(extreme_indices(&hs), (2, 1));
}

#[test]
fn hash_helpers_compare_bytes() {
    assert!(same_hash(&hash_of(1), &hash_of(1)));
    assert!(!same_hash(&hash_of(1), &hash_of(2)));
    assert!(contains_hash(&vec![hash_of(1), hash_of(2)], &hash_of(2)));
    assert!(!contains_hash(&vec![hash_of(1)], &hash_of(2)));
}

#[test]
fn target_below_trusted_height_is_refused() {
    let mut stale = relay_header(0);
    stale.hash = hash_of(100);
    let b = ParachainHeadersWithFinalityProof {
        finality_proof: FinalityProof { block: hash_of(100), justification: vec![1], unknown_headers: vec![stale] },
        parachain_headers: vec![],
        latest_para_height: 40,
    };
    let r = verify_parachain_headers_with_grandpa_finality_proof(client_state(), b, &accepting(100));
    assert_eq!(r.unwrap_err(), Error::InvalidAncestry);
}

#[test]
fn proven_parachain_height_below_trusted_is_refused() {
    let (root, proofs) = para_fixture(30, None);
    let mut b = bundle();
    b.finality_proof.unknown_headers[2].state_root = root;
    b.parachain_headers[0].1 = proofs;
    b.latest_para_height = 30;
    assert_eq!(run(b).unwrap_err(), Error::ParaHeightMismatch);
}

#[test]
fn proven_parachain_height_equal_to_trusted_is_accepted() {
    let (root, proofs) = para_fixture(40, None);
    let mut b = bundle();
    b.finality_proof.unknown_headers[2].state_root = root;
    b.parachain_headers[0].1 = proofs;
    b.latest_para_height = 40;
    assert_eq!(run(b).unwrap().latest_para_height, 40);
}
