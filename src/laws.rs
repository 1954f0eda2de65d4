use vstd::prelude::*;
use crate::ancestry::{ancestry_of, lookup, walk};
use crate::proofs::para_head_key;
use crate::step::{proven_height, step_outcome, target_index};
use crate::types::{BlockHash, ClientStateView, Error, Header, ParachainHeaderProofs};

verus! {

/// The highest header of a batch is at least as high as every other.
pub proof fn lemma_target_is_highest(hs: Seq<Header>)
    requires
        hs.len() > 0,
    ensures
        0 <= target_index(hs) < hs.len(),
        forall|i: int| 0 <= i < hs.len() ==> #[trigger] hs[i].number <= hs[target_index(hs)].number,
    decreases hs.len(),
{
    if hs.len() > 1 {
        lemma_target_is_highest(hs.drop_last());
        assert forall|i: int| 0 <= i < hs.len() implies #[trigger] hs[i].number <= hs[target_index(hs)].number by {
            if i < hs.len() - 1 {
                assert(hs[i] == hs.drop_last()[i]);
            }
        }
    }
}

/// A successful step never lowers the trusted relay height nor the
/// trusted parachain height.
pub proof fn law_monotonic(
    cs: ClientStateView,
    hs: Seq<Header>,
    block: BlockHash,
    entries: Seq<(BlockHash, ParachainHeaderProofs)>,
    para_height: u32,
    justification_target: Option<BlockHash>,
    justification_valid: bool,
)
    requires
        step_outcome(cs, hs, block, entries, para_height, justification_target, justification_valid) is Ok,
    ensures
        ({
            let r = step_outcome(cs, hs, block, entries, para_height, justification_target, justification_valid).unwrap();
            r.latest_relay_height >= cs.latest_relay_height && r.latest_para_height >= cs.latest_para_height
        }),
{
}

/// A claimed block that is not the highest header of the batch is refused.
pub proof fn law_target_is_highest(
    cs: ClientStateView,
    hs: Seq<Header>,
    block: BlockHash,
    entries: Seq<(BlockHash, ParachainHeaderProofs)>,
    para_height: u32,
    justification_target: Option<BlockHash>,
    justification_valid: bool,
)
    requires
        hs.len() > 0,
        forall|i: int| 0 <= i < hs.len() && #[trigger] hs[i].hash == block
            ==> exists|j: int| 0 <= j < hs.len() && hs[j].number > hs[i].number,
    ensures
        step_outcome(cs, hs, block, entries, para_height, justification_target, justification_valid)
            == Err::<ClientStateView, Error>(Error::TargetMismatch),
{
    lemma_target_is_highest(hs);
    let ti = target_index(hs);
    if hs[ti].hash == block {
        let j = choose|j: int| 0 <= j < hs.len() && hs[j].number > hs[ti].number;
    }
}

/// A justification that commits to another block than the claimed one is
/// refused, however validly it is signed.
pub proof fn law_justification_binding(
    cs: ClientStateView,
    hs: Seq<Header>,
    block: BlockHash,
    entries: Seq<(BlockHash, ParachainHeaderProofs)>,
    para_height: u32,
    committed: BlockHash,
    justification_valid: bool,
)
    requires
        committed != block,
    ensures
        step_outcome(cs, hs, block, entries, para_height, Some(committed), justification_valid) is Err,
        hs.len() > 0 && hs[target_index(hs)].hash == block ==> step_outcome(
            cs,
            hs,
            block,
            entries,
            para_height,
            Some(committed),
            justification_valid,
        ) == Err::<ClientStateView, Error>(Error::JustificationTargetMismatch),
{
}

/// Where the claimed block is the highest header and the justification
/// commits to it, a batch with no route of parent links from the trusted
/// block to the claimed one is refused as broken ancestry.
pub proof fn law_broken_ancestry(
    cs: ClientStateView,
    hs: Seq<Header>,
    block: BlockHash,
    entries: Seq<(BlockHash, ParachainHeaderProofs)>,
    para_height: u32,
    justification_valid: bool,
)
    requires
        hs.len() > 0,
        hs[target_index(hs)].hash == block,
        ancestry_of(hs, cs.latest_relay_hash, block) is None,
    ensures
        step_outcome(cs, hs, block, entries, para_height, Some(block), justification_valid)
            == Err::<ClientStateView, Error>(Error::InvalidAncestry),
{
}

proof fn lemma_skip_entry(
    front: Seq<(BlockHash, ParachainHeaderProofs)>,
    skipped: (BlockHash, ParachainHeaderProofs),
    back: Seq<(BlockHash, ParachainHeaderProofs)>,
    hs: Seq<Header>,
    finalized: Seq<BlockHash>,
    key: Seq<u8>,
)
    requires
        !finalized.contains(skipped.0),
    ensures
        proven_height(front + seq![skipped] + back, hs, finalized, key) == proven_height(
            front + back,
            hs,
            finalized,
            key,
        ),
    decreases back.len(),
{
    if back.len() == 0 {
        assert((front + seq![skipped] + back).drop_last() =~= front);
        assert(front + back =~= front);
    } else {
        lemma_skip_entry(front, skipped, back.drop_last(), hs, finalized, key);
        assert((front + seq![skipped] + back).drop_last() =~= front + seq![skipped] + back.drop_last());
        assert((front + back).drop_last() =~= front + back.drop_last());
    }
}

/// Proofs for a relay block outside the finalized route change nothing:
/// the outcome is the same with the entry as without it.
pub proof fn law_skip_unfinalized(
    cs: ClientStateView,
    hs: Seq<Header>,
    block: BlockHash,
    front: Seq<(BlockHash, ParachainHeaderProofs)>,
    skipped: (BlockHash, ParachainHeaderProofs),
    back: Seq<(BlockHash, ParachainHeaderProofs)>,
    para_height: u32,
    justification_target: Option<BlockHash>,
    justification_valid: bool,
)
    requires
        hs.len() > 0,
        match ancestry_of(hs, cs.latest_relay_hash, hs[target_index(hs)].hash) {
            None => true,
            Some(finalized) => !finalized.contains(skipped.0),
        },
    ensures
        step_outcome(
            cs,
            hs,
            block,
            front + seq![skipped] + back,
            para_height,
            justification_target,
            justification_valid,
        ) == step_outcome(cs, hs, block, front + back, para_height, justification_target, justification_valid),
{
    match ancestry_of(hs, cs.latest_relay_hash, hs[target_index(hs)].hash) {
        None => {},
        Some(finalized) => {
            lemma_skip_entry(front, skipped, back, hs, finalized, para_head_key(cs.para_id));
        },
    }
}

/// Authorities rotate on the newly finalized header alone: the set id goes
/// up by one and the scheduled set takes over exactly where that header
/// schedules a change, and nothing changes otherwise.
pub proof fn law_rotation_on_target(
    cs: ClientStateView,
    hs: Seq<Header>,
    block: BlockHash,
    entries: Seq<(BlockHash, ParachainHeaderProofs)>,
    para_height: u32,
    justification_target: Option<BlockHash>,
    justification_valid: bool,
)
    requires
        cs.current_set_id < u64::MAX,
        step_outcome(cs, hs, block, entries, para_height, justification_target, justification_valid) is Ok,
    ensures
        ({
            let r = step_outcome(cs, hs, block, entries, para_height, justification_target, justification_valid).unwrap();
            match hs[target_index(hs)].scheduled_change {
                Some(next) => r.current_set_id == cs.current_set_id + 1 && r.current_authorities == next@,
                None => r.current_set_id == cs.current_set_id && r.current_authorities == cs.current_authorities,
            }
        }),
{
}

/// Whether a header carries another hash than `hash`.
pub open spec fn other_than(hash: BlockHash) -> spec_fn(Header) -> bool {
    |h: Header| h.hash != hash
}

/// The batch `hs` with every header carrying `hash` left out.
pub open spec fn without(hs: Seq<Header>, hash: BlockHash) -> Seq<Header> {
    hs.filter(other_than(hash))
}

proof fn lemma_lookup_without(hs: Seq<Header>, gone: BlockHash, hash: BlockHash)
    ensures
        lookup(without(hs, gone), hash) == if hash == gone {
            None
        } else {
            lookup(hs, hash)
        },
    decreases hs.len(),
{
    if hs.len() > 0 {
        lemma_lookup_without(hs.drop_last(), gone, hash);
        reveal(Seq::filter);
        let sub = without(hs.drop_last(), gone);
        if hs.last().hash != gone {
            assert(without(hs, gone) == sub.push(hs.last()));
            assert(sub.push(hs.last()).drop_last() =~= sub);
        } else {
            assert(without(hs, gone) == sub);
        }
    }
}

proof fn lemma_walk_without(
    hs: Seq<Header>,
    from: BlockHash,
    cur: BlockHash,
    fuel: nat,
    gone: BlockHash,
    fuel2: nat,
)
    requires
        walk(hs, from, cur, fuel) is Some,
        walk(hs, from, cur, fuel).unwrap().contains(gone),
    ensures
        walk(without(hs, gone), from, cur, fuel2) is None,
    decreases fuel,
{
    let route = walk(hs, from, cur, fuel).unwrap();
    lemma_lookup_without(hs, gone, cur);
    if fuel2 > 0 && cur != gone {
        let h = lookup(hs, cur).unwrap();
        let rest = walk(hs, from, h.parent_hash, (fuel - 1) as nat).unwrap();
        let i = choose|i: int| 0 <= i < route.len() && route[i] == gone;
        assert(route == seq![cur].add(rest));
        assert(rest[i - 1] == gone);
        lemma_walk_without(hs, from, h.parent_hash, (fuel - 1) as nat, gone, (fuel2 - 1) as nat);
    }
}

/// Leaving out of a batch the headers of one block on the route below the
/// claimed block breaks the ancestry: where the claimed block is still the
/// highest header and the justification commits to it, the step is refused
/// as broken ancestry.
pub proof fn law_missing_header(
    cs: ClientStateView,
    hs: Seq<Header>,
    block: BlockHash,
    entries: Seq<(BlockHash, ParachainHeaderProofs)>,
    para_height: u32,
    justification_valid: bool,
    gone: BlockHash,
)
    requires
        ancestry_of(hs, cs.latest_relay_hash, block) is Some,
        ancestry_of(hs, cs.latest_relay_hash, block).unwrap().contains(gone),
        gone != block,
        without(hs, gone).len() > 0,
        without(hs, gone)[target_index(without(hs, gone))].hash == block,
    ensures
        step_outcome(cs, without(hs, gone), block, entries, para_height, Some(block), justification_valid)
            == Err::<ClientStateView, Error>(Error::InvalidAncestry),
{
    let fs = without(hs, gone);
    lemma_walk_without(hs, cs.latest_relay_hash, block, hs.len(), gone, fs.len());
    law_broken_ancestry(cs, fs, block, entries, para_height, justification_valid);
}

} // verus!
