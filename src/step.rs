use vstd::prelude::*;
use crate::ancestry::{ancestry_of, lookup, AncestryChain};
use crate::proofs::{check_parachain_entry, entry_outcome, para_head_key, parachain_header_storage_key};
use crate::types::{
    same_hash, Authority, BlockHash, ClientState, ClientStateView, Error, FinalityProof, Header,
    ParachainHeaderProofs, ParachainHeadersWithFinalityProof,
};

verus! {

/// The index of the highest header of a non-empty batch; of several equally
/// high, the last.
pub open spec fn target_index(hs: Seq<Header>) -> int
    decreases hs.len(),
{
    if hs.len() <= 1 {
        0
    } else {
        let k = target_index(hs.drop_last());
        if hs.last().number >= hs[k].number {
            hs.len() - 1
        } else {
            k
        }
    }
}

/// The index of the lowest header of a non-empty batch; of several equally
/// low, the first.
pub open spec fn base_index(hs: Seq<Header>) -> int
    decreases hs.len(),
{
    if hs.len() <= 1 {
        0
    } else {
        let k = base_index(hs.drop_last());
        if hs.last().number < hs[k].number {
            hs.len() - 1
        } else {
            k
        }
    }
}

/// The larger of a height so far and a new one.
pub open spec fn max_height(best: Option<u32>, n: u32) -> u32 {
    match best {
        None => n,
        Some(x) => if x >= n {
            x
        } else {
            n
        },
    }
}

/// The highest parachain height that the entries prove, taken in order and
/// stopping at the first failed entry; entries for relay blocks outside
/// `finalized` are passed over.
pub open spec fn proven_height(
    entries: Seq<(BlockHash, ParachainHeaderProofs)>,
    hs: Seq<Header>,
    finalized: Seq<BlockHash>,
    key: Seq<u8>,
) -> Result<Option<u32>, Error>
    decreases entries.len(),
{
    if entries.len() == 0 {
        Ok(None)
    } else {
        match proven_height(entries.drop_last(), hs, finalized, key) {
            Err(e) => Err(e),
            Ok(best) => {
                let (relay_hash, proofs) = entries.last();
                if !finalized.contains(relay_hash) {
                    Ok(best)
                } else {
                    match lookup(hs, relay_hash) {
                        None => Ok(best),
                        Some(relay) => match entry_outcome(relay.state_root, proofs, key) {
                            Err(e) => Err(e),
                            Ok(n) => Ok(Some(max_height(best, n))),
                        },
                    }
                }
            },
        }
    }
}

/// The client state after finalizing `target`, with `proven` the highest
/// parachain height proven, if any.
pub open spec fn advanced(cs: ClientStateView, target: Header, proven: Option<u32>) -> ClientStateView {
    ClientStateView {
        latest_relay_hash: target.hash,
        latest_relay_height: target.number,
        current_set_id: match target.scheduled_change {
            Some(_) => (cs.current_set_id + 1) as u64,
            None => cs.current_set_id,
        },
        current_authorities: match target.scheduled_change {
            Some(next) => next@,
            None => cs.current_authorities,
        },
        para_id: cs.para_id,
        latest_para_height: match proven {
            Some(n) => n,
            None => cs.latest_para_height,
        },
    }
}

/// The outcome of one verification step from client state `cs`, for the
/// relay headers `hs`, the claimed finalized block `block`, the parachain
/// header proofs `entries` and the claimed parachain height `para_height`,
/// given the block that the justification commits to (`None` where it does
/// not decode) and whether it is validly signed by the current authorities.
pub open spec fn step_outcome(
    cs: ClientStateView,
    hs: Seq<Header>,
    block: BlockHash,
    entries: Seq<(BlockHash, ParachainHeaderProofs)>,
    para_height: u32,
    justification_target: Option<BlockHash>,
    justification_valid: bool,
) -> Result<ClientStateView, Error> {
    if hs.len() == 0 {
        Err(Error::EmptyProof)
    } else {
        let target = hs[target_index(hs)];
        let base = hs[base_index(hs)];
        if target.hash != block {
            Err(Error::TargetMismatch)
        } else if justification_target is None {
            Err(Error::DecodeError)
        } else if justification_target != Some(block) {
            Err(Error::JustificationTargetMismatch)
        } else if base.number < cs.latest_relay_height && ancestry_of(
            hs,
            base.hash,
            cs.latest_relay_hash,
        ) is None {
            Err(Error::InvalidAncestry)
        } else {
            match ancestry_of(hs, cs.latest_relay_hash, target.hash) {
                None => Err(Error::InvalidAncestry),
                Some(finalized) => if target.number < cs.latest_relay_height {
                    Err(Error::InvalidAncestry)
                } else if !justification_valid {
                    Err(Error::InvalidJustification)
                } else {
                    match proven_height(entries, hs, finalized, para_head_key(cs.para_id)) {
                        Err(e) => Err(e),
                        Ok(proven) => if proven is Some && (proven != Some(para_height)
                            || proven.unwrap() < cs.latest_para_height) {
                            Err(Error::ParaHeightMismatch)
                        } else {
                            Ok(advanced(cs, target, proven))
                        },
                    }
                },
            }
        }
    }
}

/// The outcome of verifying `proof` from `cs`, as [`step_outcome`] gives it.
pub open spec fn bundle_outcome(
    cs: ClientState,
    proof: ParachainHeadersWithFinalityProof,
    justification_target: Option<BlockHash>,
    justification_valid: bool,
) -> Result<ClientStateView, Error> {
    step_outcome(
        cs@,
        proof.finality_proof.unknown_headers@,
        proof.finality_proof.block,
        proof.parachain_headers@,
        proof.latest_para_height,
        justification_target,
        justification_valid,
    )
}

/// Once an entry fails, the scan fails with its error whatever follows.
proof fn lemma_failure_persists(
    entries: Seq<(BlockHash, ParachainHeaderProofs)>,
    k: int,
    hs: Seq<Header>,
    finalized: Seq<BlockHash>,
    key: Seq<u8>,
    e: Error,
)
    requires
        0 <= k <= entries.len(),
        proven_height(entries.take(k), hs, finalized, key) == Err::<Option<u32>, Error>(e),
    ensures
        proven_height(entries, hs, finalized, key) == Err::<Option<u32>, Error>(e),
    decreases entries.len(),
{
    if k == entries.len() {
        assert(entries.take(k) =~= entries);
    } else {
        assert(entries.drop_last().take(k) =~= entries.take(k));
        lemma_failure_persists(entries.drop_last(), k, hs, finalized, key, e);
    }
}

/// Each relay block has at most one entry of parachain header proofs.
pub open spec fn keys_unique(entries: Seq<(BlockHash, ParachainHeaderProofs)>) -> bool {
    forall|i: int, j: int|
        0 <= i < j < entries.len() ==> #[trigger] entries[i].0 != #[trigger] entries[j].0
}

/// The inputs a step is defined on: parachain header proofs keyed by
/// distinct relay blocks, and room for the set id to grow where the highest
/// header schedules an authority change.
pub open spec fn step_admissible(cs: ClientState, proof: ParachainHeadersWithFinalityProof) -> bool {
    let hs = proof.finality_proof.unknown_headers@;
    &&& keys_unique(proof.parachain_headers@)
    &&& hs.len() > 0 && hs[target_index(hs)].scheduled_change is Some ==> cs.current_set_id < u64::MAX
}

/// The indices of the highest and of the lowest header of a non-empty batch.
pub fn extreme_indices(hs: &Vec<Header>) -> (r: (usize, usize))
    requires
        hs@.len() > 0,
    ensures
        r.0 == target_index(hs@),
        r.1 == base_index(hs@),
        r.0 < hs@.len(),
        r.1 < hs@.len(),
{
    let mut ti: usize = 0;
    let mut bi: usize = 0;
    let mut i: usize = 1;
    assert(hs@.take(1).len() == 1);
    while i < hs.len()
        invariant
            1 <= i <= hs@.len(),
            ti < i,
            bi < i,
            ti == target_index(hs@.take(i as int)),
            bi == base_index(hs@.take(i as int)),
        decreases hs@.len() - i,
    {
        assert(hs@.take(i + 1).drop_last() =~= hs@.take(i as int));
        if hs[i].number >= hs[ti].number {
            ti = i;
        }
        if hs[i].number < hs[bi].number {
            bi = i;
        }
        i = i + 1;
    }
    assert(hs@.take(i as int) =~= hs@);
    (ti, bi)
}

/// Whether `hash` is among `hashes`.
pub fn contains_hash(hashes: &Vec<BlockHash>, hash: &BlockHash) -> (r: bool)
    ensures
        r == hashes@.contains(*hash),
{
    let mut i: usize = 0;
    while i < hashes.len()
        invariant
            i <= hashes@.len(),
            forall|j: int| 0 <= j < i ==> hashes@[j] != *hash,
        decreases hashes@.len() - i,
    {
        if same_hash(&hashes[i], hash) {
            assert(hashes@[i as int] == *hash);
            return true;
        }
        i = i + 1;
    }
    false
}

/// Checks the parachain header proofs of the finalized relay blocks, in
/// order, and returns the highest parachain height proven.
pub fn proven_para_height(
    chain: &AncestryChain,
    finalized: &Vec<BlockHash>,
    entries: &Vec<(BlockHash, ParachainHeaderProofs)>,
    key: &Vec<u8>,
) -> (r: Result<Option<u32>, Error>)
    ensures
        r == proven_height(entries@, chain.spec_headers(), finalized@, key@),
{
    let mut best: Option<u32> = None;
    let mut i: usize = 0;
    assert(entries@.take(0) =~= Seq::<(BlockHash, ParachainHeaderProofs)>::empty());
    while i < entries.len()
        invariant
            i <= entries@.len(),
            proven_height(entries@.take(i as int), chain.spec_headers(), finalized@, key@) == Ok::<
                Option<u32>,
                Error,
            >(best),
        decreases entries@.len() - i,
    {
        let entry = &entries[i];
        assert(entries@.take(i + 1).drop_last() =~= entries@.take(i as int));
        assert(entries@.take(i + 1).last() == entries@[i as int]);
        if contains_hash(finalized, &entry.0) {
            match chain.header(&entry.0) {
                None => {},
                Some(relay) => {
                    match check_parachain_entry(&relay.state_root, &entry.1, key) {
                        Err(e) => {
                            proof {
                                lemma_failure_persists(
                                    entries@,
                                    i + 1,
                                    chain.spec_headers(),
                                    finalized@,
                                    key@,
                                    e,
                                );
                            }
                            return Err(e);
                        },
                        Ok(n) => {
                            best = Some(
                                match best {
                                    None => n,
                                    Some(x) => if x >= n {
                                        x
                                    } else {
                                        n
                                    },
                                },
                            );
                        },
                    }
                },
            }
        }
        i = i + 1;
    }
    assert(entries@.take(i as int) =~= entries@);
    Ok(best)
}

/// A copy of an authority list.
pub fn copy_authorities(v: &Vec<Authority>) -> (r: Vec<Authority>)
    ensures
        r@ == v@,
{
    let mut r: Vec<Authority> = Vec::new();
    let mut i: usize = 0;
    while i < v.len()
        invariant
            i <= v@.len(),
            r@ == v@.take(i as int),
        decreases v@.len() - i,
    {
        r.push(v[i]);
        assert(v@.take(i + 1) =~= v@.take(i as int).push(v@[i as int]));
        i = i + 1;
    }
    assert(v@.take(i as int) =~= v@);
    r
}

/// Checks GRANDPA justifications: what block one commits to and whether the
/// given authority set signed it with a weighted supermajority.
pub trait JustificationVerifier {
    /// The block that the encoded justification commits to, or `None` where
    /// the bytes do not decode as a justification.
    spec fn target_of(&self, justification: Seq<u8>) -> Option<BlockHash>;

    /// Whether the encoded justification is a valid commit of the authority
    /// set `authorities` with id `set_id`.
    spec fn signed_by(&self, justification: Seq<u8>, set_id: u64, authorities: Seq<Authority>) -> bool;

    /// Decodes the justification and reads the block it commits to.
    fn commit_target(&self, justification: &Vec<u8>) -> (r: Option<BlockHash>)
        ensures
            r == self.target_of(justification@),
    ;

    /// Checks the justification's signatures and weight against an
    /// authority set.
    fn verify(&self, justification: &Vec<u8>, set_id: u64, authorities: &Vec<Authority>) -> (r: bool)
        ensures
            r == self.signed_by(justification@, set_id, authorities@),
    ;
}

/// A verifier with fixed answers, whatever justification it is shown: the
/// block it reports as committed to and its verdict on the signatures.
#[derive(Clone, Copy, Debug)]
pub struct FixedVerdict {
    pub target: Option<BlockHash>,
    pub valid: bool,
}

impl JustificationVerifier for FixedVerdict {
    open spec fn target_of(&self, justification: Seq<u8>) -> Option<BlockHash> {
        self.target
    }

    open spec fn signed_by(&self, justification: Seq<u8>, set_id: u64, authorities: Seq<Authority>) -> bool {
        self.valid
    }

    fn commit_target(&self, justification: &Vec<u8>) -> (r: Option<BlockHash>) {
        self.target
    }

    fn verify(&self, justification: &Vec<u8>, set_id: u64, authorities: &Vec<Authority>) -> (r: bool) {
        self.valid
    }
}

/// One verification step, given what the justification commits to (`None`
/// where it does not decode) and whether it is validly signed by the
/// client's current authority set. The client state moves to the highest
/// header of the batch, which must be the claimed block, reached by parent
/// links from the trusted block and not below it; the parachain height moves
/// to the highest one proven under the finalized relay blocks, which must
/// match the claimed one and not lie below the trusted one; the authority
/// set rotates where the new block schedules a change.
pub fn verify_with_justification(
    client_state: ClientState,
    proof: ParachainHeadersWithFinalityProof,
    justification_target: Option<BlockHash>,
    justification_valid: bool,
) -> (r: Result<ClientState, Error>)
    requires
        step_admissible(client_state, proof),
    ensures
        match r {
            Ok(s) => bundle_outcome(client_state, proof, justification_target, justification_valid)
                == Ok::<ClientStateView, Error>(s@),
            Err(e) => bundle_outcome(client_state, proof, justification_target, justification_valid)
                == Err::<ClientStateView, Error>(e),
        },
{
    let ghost hs = proof.finality_proof.unknown_headers@;
    let ParachainHeadersWithFinalityProof { finality_proof, parachain_headers, latest_para_height } =
        proof;
    let FinalityProof { block, justification: _, unknown_headers } = finality_proof;
    if unknown_headers.len() == 0 {
        return Err(Error::EmptyProof);
    }
    let (ti, bi) = extreme_indices(&unknown_headers);
    let target_hash = unknown_headers[ti].hash;
    let target_number = unknown_headers[ti].number;
    if !same_hash(&target_hash, &block) {
        return Err(Error::TargetMismatch);
    }
    match justification_target {
        None => {
            return Err(Error::DecodeError);
        },
        Some(t) => {
            if !same_hash(&t, &block) {
                return Err(Error::JustificationTargetMismatch);
            }
        },
    }
    let base_hash = unknown_headers[bi].hash;
    let base_number = unknown_headers[bi].number;
    let chain = AncestryChain::new(unknown_headers);
    if base_number < client_state.latest_relay_height {
        match chain.ancestry(&base_hash, &client_state.latest_relay_hash) {
            Err(_) => {
                return Err(Error::InvalidAncestry);
            },
            Ok(_) => {},
        }
    }
    let finalized = match chain.ancestry(&client_state.latest_relay_hash, &target_hash) {
        Err(_) => {
            return Err(Error::InvalidAncestry);
        },
        Ok(route) => route,
    };
    if target_number < client_state.latest_relay_height {
        return Err(Error::InvalidAncestry);
    }
    if !justification_valid {
        return Err(Error::InvalidJustification);
    }
    let key = parachain_header_storage_key(client_state.para_id);
    let proven = match proven_para_height(&chain, &finalized, &parachain_headers, &key) {
        Err(e) => {
            return Err(e);
        },
        Ok(p) => p,
    };
    let para_height = match proven {
        Some(n) => {
            if n != latest_para_height || n < client_state.latest_para_height {
                return Err(Error::ParaHeightMismatch);
            }
            n
        },
        None => client_state.latest_para_height,
    };
    let ClientState {
        latest_relay_hash: _,
        latest_relay_height: _,
        current_set_id,
        current_authorities,
        para_id,
        latest_para_height: _,
    } = client_state;
    let (set_id, authorities) = match &chain.headers[ti].scheduled_change {
        Some(next) => (current_set_id + 1, copy_authorities(next)),
        None => (current_set_id, current_authorities),
    };
    let r = ClientState {
        latest_relay_hash: target_hash,
        latest_relay_height: target_number,
        current_set_id: set_id,
        current_authorities: authorities,
        para_id,
        latest_para_height: para_height,
    };
    assert(r@ == advanced(client_state@, hs[ti as int], proven));
    Ok(r)
}

/// Verifies a GRANDPA finality proof for relay-chain headers, then the
/// trie proofs of the parachain headers stored at the newly finalized relay
/// blocks, and returns the advanced client state. The justification is
/// decoded and checked by `verifier`, against the client's current set id
/// and authorities.
pub fn verify_parachain_headers_with_grandpa_finality_proof<V: JustificationVerifier>(
    client_state: ClientState,
    proof: ParachainHeadersWithFinalityProof,
    verifier: &V,
) -> (r: Result<ClientState, Error>)
    requires
        step_admissible(client_state, proof),
    ensures
        ({
            let j = proof.finality_proof.justification@;
            let outcome = bundle_outcome(
                client_state,
                proof,
                verifier.target_of(j),
                verifier.signed_by(j, client_state.current_set_id, client_state.current_authorities@),
            );
            match r {
                Ok(s) => outcome == Ok::<ClientStateView, Error>(s@),
                Err(e) => outcome == Err::<ClientStateView, Error>(e),
            }
        }),
{
    let target = verifier.commit_target(&proof.finality_proof.justification);
    let valid = verifier.verify(
        &proof.finality_proof.justification,
        client_state.current_set_id,
        &client_state.current_authorities,
    );
    let ghost cs = client_state;
    let ghost p = proof;
    let r = verify_with_justification(client_state, proof, target, valid);
    proof {
        match &r {
            Ok(s) => {
                assert(bundle_outcome(cs, p, target, valid) == Ok::<ClientStateView, Error>(s@));
            },
            Err(e) => {
                assert(bundle_outcome(cs, p, target, valid) == Err::<ClientStateView, Error>(*e));
            },
        }
    }
    r
}

} // verus!
