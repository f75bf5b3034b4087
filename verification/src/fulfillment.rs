use vstd::prelude::*;

use crate::bls::{byte_views, BLSCore, MockBLSCore};
use crate::errors::{NodeError, NodeResult};
use crate::group::Group;
use crate::sig_cache::{
    lemma_pairs_map_lookup, lemma_pairs_map_membership, spec_entry, spec_entry_pos,
    spec_has_index, InMemorySignatureResultCache, RandomnessResultCache, RandomnessResultCacheView,
};
use crate::types::clone_bytes;

verus! {

/// What should be submitted on chain for one fulfilled task.
pub struct FulfillmentSubmission {
    pub group_index: u32,
    pub task_index: u64,
    pub signature: Vec<u8>,
    pub partials: Vec<(u32, Vec<u8>)>,
}

/// The ghost mirror of a submission.
#[verifier::ext_equal]
pub struct FulfillmentSubmissionView {
    pub group_index: u32,
    pub task_index: u64,
    pub signature: Seq<u8>,
    pub partials: Seq<(u32, Seq<u8>)>,
}

impl View for FulfillmentSubmission {
    type V = FulfillmentSubmissionView;

    open spec fn view(&self) -> FulfillmentSubmissionView {
        FulfillmentSubmissionView {
            group_index: self.group_index,
            task_index: self.task_index,
            signature: self.signature@,
            partials: Seq::new(
                self.partials@.len(),
                |i: int| (self.partials@[i].0, self.partials@[i].1@),
            ),
        }
    }
}

/// What the fulfillment handler decides for one ready entry: submit
/// the aggregated signature, or stand down and say why.
pub enum FulfillmentAction {
    Submit(FulfillmentSubmission),
    SkipAlreadyCommitted,
    SkipVerificationFailed,
}

/// The ghost mirror of a fulfillment decision.
#[verifier::ext_equal]
pub enum FulfillmentActionView {
    Submit(FulfillmentSubmissionView),
    SkipAlreadyCommitted,
    SkipVerificationFailed,
}

impl View for FulfillmentAction {
    type V = FulfillmentActionView;

    open spec fn view(&self) -> FulfillmentActionView {
        match self {
            FulfillmentAction::Submit(s) => FulfillmentActionView::Submit(s@),
            FulfillmentAction::SkipAlreadyCommitted => FulfillmentActionView::SkipAlreadyCommitted,
            FulfillmentAction::SkipVerificationFailed => FulfillmentActionView::SkipVerificationFailed,
        }
    }
}

/// The quorum handed to aggregation, canonically ordered: walking the
/// group's member table, each member that contributed a partial adds
/// `(member index, partial)`. The order partials arrived in leaves no
/// trace here, which is what makes aggregation deterministic.
pub open spec fn spec_collect_upto(
    group: Group,
    entry: RandomnessResultCacheView,
    n: int,
) -> Seq<(u32, Seq<u8>)>
    decreases n,
{
    if n <= 0 {
        Seq::empty()
    } else {
        let prefix = spec_collect_upto(group, entry, n - 1);
        let m = group.members@[n - 1]@;
        if entry.has_partial_from(m.id_address) {
            prefix.push((m.index, entry.partial_from(m.id_address)))
        } else {
            prefix
        }
    }
}

/// The full canonical quorum of an entry against a group.
pub open spec fn spec_collected_partials(group: Group, entry: RandomnessResultCacheView) -> Seq<
    (u32, Seq<u8>),
> {
    spec_collect_upto(group, entry, group.members@.len() as int)
}

/// The signatures of a quorum, without their member indices.
pub open spec fn spec_partial_values(s: Seq<(u32, Seq<u8>)>) -> Seq<Seq<u8>> {
    Seq::new(s.len(), |i: int| s[i].1)
}

/// The group signature an entry aggregates to.
pub open spec fn spec_aggregated_signature<B: BLSCore>(
    bls: B,
    group: Group,
    entry: RandomnessResultCacheView,
) -> Seq<u8> {
    bls.aggregate_spec(entry.threshold, spec_partial_values(spec_collected_partials(group, entry)))
}

/// The decision for one entry: an already fulfilled task is left
/// alone; a quorum whose aggregate fails verification is skipped and
/// the entry kept as it is, for the operator to look at; otherwise
/// the submission is handed up.
pub open spec fn spec_prepare_fulfillment<B: BLSCore>(
    bls: B,
    group: Group,
    entry: RandomnessResultCacheView,
) -> FulfillmentActionView {
    if entry.committed {
        FulfillmentActionView::SkipAlreadyCommitted
    } else {
        let signature = spec_aggregated_signature(bls, group, entry);
        if !bls.verify_spec(group.public_key@, entry.message, signature) {
            FulfillmentActionView::SkipVerificationFailed
        } else {
            FulfillmentActionView::Submit(
                FulfillmentSubmissionView {
                    group_index: entry.group_index,
                    task_index: entry.task_index,
                    signature,
                    partials: spec_collected_partials(group, entry),
                },
            )
        }
    }
}

/// Decides what to do with one ready entry: aggregate its canonical
/// quorum, verify against the group public key, and either hand up
/// the submission or stand down. Never touches the cache.
pub fn prepare_fulfillment<B: BLSCore>(
    bls: &B,
    group: &Group,
    entry: &RandomnessResultCache,
) -> (r: FulfillmentAction)
    requires
        group.wf(),
        entry@.partials_unique(),
    ensures
        r@ == spec_prepare_fulfillment(*bls, *group, entry@),
{
    if entry.is_committed() {
        return FulfillmentAction::SkipAlreadyCommitted;
    }
    let mut collected: Vec<(u32, Vec<u8>)> = Vec::new();
    let n = group.members.len();
    let mut i: usize = 0;
    proof {
        assert(collected_views(collected@) =~= spec_collect_upto(*group, entry@, 0));
    }
    while i < n
        invariant
            group.wf(),
            entry@.partials_unique(),
            n == group.members@.len(),
            i <= n,
            collected_views(collected@) == spec_collect_upto(*group, entry@, i as int),
        decreases n - i,
    {
        let ghost pre = collected_views(collected@);
        match entry.get_partial(&group.members[i].id_address) {
            Some(partial) => {
                collected.push((group.members[i].index, partial));
                proof {
                    assert(collected_views(collected@) =~= pre.push(
                        (
                            group.members@[i as int]@.index,
                            entry@.partial_from(group.members@[i as int]@.id_address),
                        ),
                    ));
                }
            },
            None => {},
        }
        proof {
            assert(collected_views(collected@) =~= spec_collect_upto(*group, entry@, i + 1));
        }
        i += 1;
    }
    let mut partial_values: Vec<Vec<u8>> = Vec::new();
    let m = collected.len();
    let mut j: usize = 0;
    proof {
        assert(byte_views(partial_values@) =~= spec_partial_values(
            collected_views(collected@),
        ).take(0));
    }
    while j < m
        invariant
            m == collected@.len(),
            j <= m,
            byte_views(partial_values@) == spec_partial_values(collected_views(collected@)).take(
                j as int,
            ),
        decreases m - j,
    {
        let ghost prev = byte_views(partial_values@);
        partial_values.push(clone_bytes(&collected[j].1));
        proof {
            assert(byte_views(partial_values@) =~= prev.push(
                collected_views(collected@)[j as int].1,
            ));
            assert(byte_views(partial_values@) =~= spec_partial_values(
                collected_views(collected@),
            ).take(j + 1));
        }
        j += 1;
    }
    proof {
        assert(spec_partial_values(collected_views(collected@)).take(m as int)
            =~= spec_partial_values(collected_views(collected@)));
    }
    let signature = bls.aggregate(entry.get_threshold(), &partial_values);
    let verified = bls.verify(&group.public_key, &entry.message, &signature);
    if !verified {
        return FulfillmentAction::SkipVerificationFailed;
    }
    let submission = FulfillmentSubmission {
        group_index: entry.group_index,
        task_index: entry.task_index,
        signature,
        partials: collected,
    };
    proof {
        assert(submission@ =~= FulfillmentSubmissionView {
            group_index: entry@.group_index,
            task_index: entry@.task_index,
            signature: spec_aggregated_signature(*bls, *group, entry@),
            partials: spec_collected_partials(*group, entry@),
        });
    }
    FulfillmentAction::Submit(submission)
}

/// The ghost mirrors of a collected quorum.
pub open spec fn collected_views(s: Seq<(u32, Vec<u8>)>) -> Seq<(u32, Seq<u8>)> {
    Seq::new(s.len(), |i: int| (s[i].0, s[i].1@))
}

/// Marks a task fulfilled once the chain confirmed the submission;
/// from then on the task never counts as ready again.
pub fn confirm_fulfillment(cache: &mut InMemorySignatureResultCache, task_index: u64) -> (r:
    NodeResult<()>)
    requires
        old(cache).wf(),
    ensures
        final(cache).wf(),
        r is Err <==> !spec_has_index(old(cache)@, task_index),
        r matches Err(e) ==> e == NodeError::CommitterCacheNotExisted && final(cache)@ == old(
            cache,
        )@,
        r is Ok ==> final(cache)@ == old(cache)@.update(
            spec_entry_pos(old(cache)@, task_index),
            spec_entry(old(cache)@, task_index).as_committed(),
        ),
{
    cache.mark_committed(task_index)
}

/// A member's recorded partial is what the partials map holds for it.
proof fn lemma_partial_from_is_map_lookup(entry: RandomnessResultCacheView, addr: Seq<u8>)
    requires
        entry.partials_unique(),
        entry.has_partial_from(addr),
    ensures
        entry.partials_map().contains_key(addr),
        entry.partials_map()[addr] == entry.partial_from(addr),
{
    let i = choose|i: int|
        0 <= i < entry.partial_signatures.len() && #[trigger] entry.partial_signatures[i].0
            == addr;
    lemma_pairs_map_lookup(entry.partial_signatures, i);
}

/// The canonical quorum reads the partials only through their map:
/// two entries holding the same partials, in whatever order each
/// collected them, yield the same quorum.
pub proof fn lemma_collect_depends_only_on_partials(
    group: Group,
    e1: RandomnessResultCacheView,
    e2: RandomnessResultCacheView,
    n: int,
)
    requires
        e1.partials_unique(),
        e2.partials_unique(),
        e1.partials_map() == e2.partials_map(),
    ensures
        spec_collect_upto(group, e1, n) == spec_collect_upto(group, e2, n),
    decreases n,
{
    if n > 0 {
        lemma_collect_depends_only_on_partials(group, e1, e2, n - 1);
        let addr = group.members@[n - 1]@.id_address;
        lemma_pairs_map_membership(e1.partial_signatures, addr);
        lemma_pairs_map_membership(e2.partial_signatures, addr);
        if e1.has_partial_from(addr) {
            lemma_partial_from_is_map_lookup(e1, addr);
            lemma_partial_from_is_map_lookup(e2, addr);
        }
    }
}

/// Aggregation is order-independent: however a quorum of partials
/// arrived at the committer, once the same members stand behind the
/// same partials the aggregated signature, and with it the whole
/// submission decision, is identical.
pub proof fn lemma_aggregation_deterministic<B: BLSCore>(
    bls: B,
    group: Group,
    e1: RandomnessResultCacheView,
    e2: RandomnessResultCacheView,
)
    requires
        e1.partials_unique(),
        e2.partials_unique(),
        e1.partials_map() == e2.partials_map(),
        e1.threshold == e2.threshold,
        e1.message == e2.message,
        e1.committed == e2.committed,
        e1.group_index == e2.group_index,
        e1.task_index == e2.task_index,
    ensures
        spec_aggregated_signature(bls, group, e1) == spec_aggregated_signature(bls, group, e2),
        spec_prepare_fulfillment(bls, group, e1) == spec_prepare_fulfillment(bls, group, e2),
{
    lemma_collect_depends_only_on_partials(group, e1, e2, group.members@.len() as int);
}

/// At-most-once fulfillment: an entry marked committed is decided
/// `SkipAlreadyCommitted` and never again counts as ready, so a
/// duplicate ready emission ends as a no-op.
pub proof fn lemma_no_second_fulfillment<B: BLSCore>(
    bls: B,
    group: Group,
    entry: RandomnessResultCacheView,
)
    ensures
        spec_prepare_fulfillment(bls, group, entry.as_committed())
            == FulfillmentActionView::SkipAlreadyCommitted,
        !entry.as_committed().ready(),
{
}

/// Every partial the canonical quorum carries is one of the entry's
/// recorded partial values.
proof fn lemma_collect_values_recorded(
    group: Group,
    entry: RandomnessResultCacheView,
    n: int,
)
    requires
        entry.partials_unique(),
    ensures
        forall|k: int|
            0 <= k < spec_collect_upto(group, entry, n).len() ==> exists|i: int|
                0 <= i < entry.partial_signatures.len() && (#[trigger] spec_collect_upto(
                    group,
                    entry,
                    n,
                )[k]).1 == #[trigger] entry.partial_signatures[i].1,
    decreases n,
{
    if n > 0 {
        lemma_collect_values_recorded(group, entry, n - 1);
        let addr = group.members@[n - 1]@.id_address;
        let cur = spec_collect_upto(group, entry, n);
        let prev = spec_collect_upto(group, entry, n - 1);
        if entry.has_partial_from(addr) {
            crate::sig_cache::lemma_partial_from_witness(entry, addr);
            assert(cur == prev.push(
                (group.members@[n - 1]@.index, entry.partial_from(addr)),
            ));
        } else {
            assert(cur == prev);
        }
        assert forall|k: int| 0 <= k < cur.len() implies exists|i: int|
            0 <= i < entry.partial_signatures.len() && (#[trigger] cur[k]).1
                == #[trigger] entry.partial_signatures[i].1 by {
            if k < prev.len() {
                assert(cur[k].1 == prev[k].1);
                let i = choose|i: int|
                    0 <= i < entry.partial_signatures.len() && prev[k].1
                        == #[trigger] entry.partial_signatures[i].1;
                assert(cur[k].1 == entry.partial_signatures[i].1);
            } else {
                let i = choose|i: int|
                    0 <= i < entry.partial_signatures.len()
                        && #[trigger] entry.partial_signatures[i].0 == addr
                        && entry.partial_signatures[i].1 == entry.partial_from(addr);
                assert(cur[k].1 == entry.partial_signatures[i].1);
            }
        }
    }
}

/// A member holding a partial puts at least one pair into the quorum.
proof fn lemma_collect_nonempty(
    group: Group,
    entry: RandomnessResultCacheView,
    n: int,
    j: int,
)
    requires
        0 <= j < n,
        entry.has_partial_from(group.members@[j]@.id_address),
    ensures
        spec_collect_upto(group, entry, n).len() >= 1,
    decreases n,
{
    if j < n - 1 {
        lemma_collect_nonempty(group, entry, n - 1, j);
    }
}

/// A quorum of honest partials fulfills the task. Under the mock
/// backend's key setup, where every share equals the group public
/// key, an uncommitted entry whose partials all come from group
/// members and all carry the honest signature of its message
/// aggregates to a signature that verifies, so the decision is to
/// submit.
pub proof fn lemma_honest_quorum_verifies(group: Group, entry: RandomnessResultCacheView)
    requires
        group.wf(),
        entry.partials_unique(),
        !entry.committed,
        entry.partial_signatures.len() >= 1,
        forall|i: int|
            0 <= i < entry.partial_signatures.len() ==> group.spec_is_member(
                #[trigger] entry.partial_signatures[i].0,
            ),
        forall|i: int|
            0 <= i < entry.partial_signatures.len()
                ==> #[trigger] entry.partial_signatures[i].1 == (MockBLSCore {
            }).partial_sign_spec(group.public_key@, entry.message),
    ensures
        (MockBLSCore {  }).verify_spec(
            group.public_key@,
            entry.message,
            spec_aggregated_signature(MockBLSCore {  }, group, entry),
        ),
        spec_prepare_fulfillment(MockBLSCore {  }, group, entry)
            == FulfillmentActionView::Submit(
            FulfillmentSubmissionView {
                group_index: entry.group_index,
                task_index: entry.task_index,
                signature: spec_aggregated_signature(MockBLSCore {  }, group, entry),
                partials: spec_collected_partials(group, entry),
            },
        ),
{
    let bls = MockBLSCore {  };
    let n = group.members@.len() as int;
    let addr0 = entry.partial_signatures[0].0;
    assert(group.spec_is_member(addr0));
    let j = group.spec_member_index(addr0);
    group.lemma_member_index_in_range(addr0);
    assert(entry.has_partial_from(group.members@[j]@.id_address)) by {
        assert(entry.partial_signatures[0].0 == group.members@[j]@.id_address);
    }
    lemma_collect_nonempty(group, entry, n, j);
    lemma_collect_values_recorded(group, entry, n);
    let collected = spec_collected_partials(group, entry);
    assert(spec_partial_values(collected).len() >= 1);
    assert(spec_partial_values(collected)[0] == collected[0].1);
    let i = choose|i: int|
        0 <= i < entry.partial_signatures.len() && #[trigger] collected[0].1
            == entry.partial_signatures[i].1;
    assert(collected[0].1 == group.public_key@ + entry.message);
    assert(spec_aggregated_signature(bls, group, entry) == group.public_key@ + entry.message);
}

} // verus!

