use vstd::prelude::*;

verus! {

broadcast use vstd::array::group_array_axioms;

/// A 32-byte block hash or trie root.
pub type BlockHash = [u8; 32];

/// One GRANDPA authority: its public key and its voting weight.
pub type Authority = ([u8; 32], u64);

/// Compares two hashes byte by byte.
pub fn same_hash(a: &BlockHash, b: &BlockHash) -> (r: bool)
    ensures
        r == (*a == *b),
{
    let mut i: usize = 0;
    while i < 32
        invariant
            i <= 32,
            forall|j: int| 0 <= j < i ==> a@[j] == b@[j],
        decreases 32 - i,
    {
        if a[i] != b[i] {
            assert(a@[i as int] != b@[i as int]);
            return false;
        }
        i = i + 1;
    }
    assert(a@ =~= b@);
    assert(*a =~= *b);
    true
}

/// A relay-chain header, with the hash it is known by and the authority set
/// that its digest schedules, if any.
#[derive(Clone, Debug)]
pub struct Header {
    /// The hash of the encoded header, which names it.
    pub hash: BlockHash,
    pub parent_hash: BlockHash,
    pub number: u32,
    pub state_root: BlockHash,
    pub extrinsics_root: BlockHash,
    /// The next authority set, where the digest holds a scheduled change.
    pub scheduled_change: Option<Vec<Authority>>,
}

/// The light client's trust anchor.
#[derive(Clone, Debug)]
pub struct ClientState {
    /// The most recently finalized relay block known to the client.
    pub latest_relay_hash: BlockHash,
    pub latest_relay_height: u32,
    /// The epoch of the active GRANDPA authority set.
    pub current_set_id: u64,
    pub current_authorities: Vec<Authority>,
    /// The tracked parachain.
    pub para_id: u32,
    /// The highest parachain height proven finalized so far.
    pub latest_para_height: u32,
}

/// The mathematical value of a [`ClientState`].
pub ghost struct ClientStateView {
    pub latest_relay_hash: BlockHash,
    pub latest_relay_height: u32,
    pub current_set_id: u64,
    pub current_authorities: Seq<Authority>,
    pub para_id: u32,
    pub latest_para_height: u32,
}

impl View for ClientState {
    type V = ClientStateView;

    open spec fn view(&self) -> ClientStateView {
        ClientStateView {
            latest_relay_hash: self.latest_relay_hash,
            latest_relay_height: self.latest_relay_height,
            current_set_id: self.current_set_id,
            current_authorities: self.current_authorities@,
            para_id: self.para_id,
            latest_para_height: self.latest_para_height,
        }
    }
}

/// A claimed finality proof for the relay block `block`.
#[derive(Clone, Debug)]
pub struct FinalityProof {
    pub block: BlockHash,
    pub justification: Vec<u8>,
    pub unknown_headers: Vec<Header>,
}

/// Proofs that a parachain header is stored under one relay block.
#[derive(Clone, Debug)]
pub struct ParachainHeaderProofs {
    pub extrinsic_proof: Vec<Vec<u8>>,
    pub extrinsic: Vec<u8>,
    pub state_proof: Vec<Vec<u8>>,
}

/// A finality proof together with parachain header proofs, keyed by relay
/// block hash and taken in the order given.
#[derive(Clone, Debug)]
pub struct ParachainHeadersWithFinalityProof {
    pub finality_proof: FinalityProof,
    pub parachain_headers: Vec<(BlockHash, ParachainHeaderProofs)>,
    pub latest_para_height: u32,
}

/// Why a proof bundle was rejected.
#[derive(Clone, Copy, Debug, PartialEq, Eq, Structural)]
pub enum Error {
    EmptyProof,
    TargetMismatch,
    DecodeError,
    JustificationTargetMismatch,
    InvalidAncestry,
    InvalidJustification,
    StateProofInvalid,
    HeaderDecodeError,
    ExtrinsicProofInvalid,
    ParaHeightMismatch,
}

} // verus!
