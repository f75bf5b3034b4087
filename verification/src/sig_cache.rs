use vstd::prelude::*;

use crate::address::Address;
use crate::errors::{NodeError, NodeResult};
use crate::group::Group;
use crate::types::clone_bytes;

verus! {

/// The signatures collected so far for one randomness task: who sent
/// which partial, what is being signed, how many partials make a
/// quorum, and whether the task has already been fulfilled on chain.
pub struct RandomnessResultCache {
    pub group_index: u32,
    pub task_index: u64,
    pub message: Vec<u8>,
    pub threshold: usize,
    pub committed: bool,
    pub partial_signatures: Vec<(Address, Vec<u8>)>,
}

/// The ghost mirror of one cache entry.
#[verifier::ext_equal]
pub struct RandomnessResultCacheView {
    pub group_index: u32,
    pub task_index: u64,
    pub message: Seq<u8>,
    pub threshold: usize,
    pub committed: bool,
    pub partial_signatures: Seq<(Seq<u8>, Seq<u8>)>,
}

impl View for RandomnessResultCache {
    type V = RandomnessResultCacheView;

    open spec fn view(&self) -> RandomnessResultCacheView {
        RandomnessResultCacheView {
            group_index: self.group_index,
            task_index: self.task_index,
            message: self.message@,
            threshold: self.threshold,
            committed: self.committed,
            partial_signatures: Seq::new(
                self.partial_signatures@.len(),
                |i: int|
                    (self.partial_signatures@[i].0@, self.partial_signatures@[i].1@),
            ),
        }
    }
}

impl RandomnessResultCacheView {
    /// A fresh entry for a task: no partials yet, not committed.
    pub open spec fn empty(group_index: u32, task_index: u64, message: Seq<u8>, threshold: usize) -> RandomnessResultCacheView {
        RandomnessResultCacheView {
            group_index,
            task_index,
            message,
            threshold,
            committed: false,
            partial_signatures: Seq::empty(),
        }
    }

    /// Whether this member has already contributed a partial.
    pub open spec fn has_partial_from(self, addr: Seq<u8>) -> bool {
        exists|i: int|
            0 <= i < self.partial_signatures.len() && #[trigger] self.partial_signatures[i].0
                == addr
    }

    /// The partial this member contributed, where there is one.
    pub open spec fn partial_from(self, addr: Seq<u8>) -> Seq<u8> {
        let i = choose|i: int|
            0 <= i < self.partial_signatures.len() && #[trigger] self.partial_signatures[i].0
                == addr;
        self.partial_signatures[i].1
    }

    /// No member appears twice among the partials.
    pub open spec fn partials_unique(self) -> bool {
        forall|i: int, j: int|
            0 <= i < j < self.partial_signatures.len() ==> self.partial_signatures[i].0
                != self.partial_signatures[j].0
    }

    /// The partials read as a map from member address to signature.
    /// Arrival order leaves no trace here.
    pub open spec fn partials_map(self) -> Map<Seq<u8>, Seq<u8>> {
        pairs_map(self.partial_signatures)
    }

    /// The same entry with one more partial recorded.
    pub open spec fn with_partial(self, addr: Seq<u8>, sig: Seq<u8>) -> RandomnessResultCacheView {
        RandomnessResultCacheView {
            partial_signatures: self.partial_signatures.push((addr, sig)),
            ..self
        }
    }

    /// The same entry, marked fulfilled.
    pub open spec fn as_committed(self) -> RandomnessResultCacheView {
        RandomnessResultCacheView { committed: true, ..self }
    }

    /// A quorum of partials is present and the task has not been
    /// fulfilled yet: the aggregation listener may emit this entry.
    pub open spec fn ready(self) -> bool {
        self.partial_signatures.len() >= self.threshold && !self.committed
    }
}

/// A member-to-signature map read off a sequence of pairs; later
/// pairs win, though the caches here never hold a member twice.
pub open spec fn pairs_map(s: Seq<(Seq<u8>, Seq<u8>)>) -> Map<Seq<u8>, Seq<u8>>
    decreases s.len(),
{
    if s.len() == 0 {
        Map::empty()
    } else {
        pairs_map(s.drop_last()).insert(s.last().0, s.last().1)
    }
}

/// The map of a pair sequence holds exactly the addresses that occur
/// in it, and under each address the signature it arrived with.
pub proof fn lemma_pairs_map_membership(s: Seq<(Seq<u8>, Seq<u8>)>, addr: Seq<u8>)
    ensures
        pairs_map(s).contains_key(addr) <==> exists|i: int|
            0 <= i < s.len() && #[trigger] s[i].0 == addr,
    decreases s.len(),
{
    if s.len() > 0 {
        let d = s.drop_last();
        lemma_pairs_map_membership(d, addr);
        if s.last().0 == addr {
            assert(s[s.len() - 1].0 == addr);
        } else {
            assert(pairs_map(s).contains_key(addr) <==> pairs_map(d).contains_key(addr));
            if exists|i: int| 0 <= i < d.len() && #[trigger] d[i].0 == addr {
                let i = choose|i: int| 0 <= i < d.len() && #[trigger] d[i].0 == addr;
                assert(s[i].0 == addr);
            }
            if exists|i: int| 0 <= i < s.len() && #[trigger] s[i].0 == addr {
                let i = choose|i: int| 0 <= i < s.len() && #[trigger] s[i].0 == addr;
                if i < d.len() {
                    assert(d[i].0 == addr);
                }
            }
        }
    }
}

/// Under each address that occurs once, the map holds the signature
/// stored beside it.
pub proof fn lemma_pairs_map_lookup(s: Seq<(Seq<u8>, Seq<u8>)>, i: int)
    requires
        0 <= i < s.len(),
        forall|j: int, k: int| 0 <= j < k < s.len() ==> s[j].0 != s[k].0,
    ensures
        pairs_map(s).contains_key(s[i].0),
        pairs_map(s)[s[i].0] == s[i].1,
    decreases s.len(),
{
    lemma_pairs_map_membership(s, s[i].0);
    if i == s.len() - 1 {
    } else {
        let d = s.drop_last();
        lemma_pairs_map_lookup(d, i);
        assert(s.last().0 != s[i].0);
    }
}

/// A member that contributed at all contributed exactly the signature
/// that `partial_from` reads back.
pub proof fn lemma_partial_from_witness(entry: RandomnessResultCacheView, addr: Seq<u8>)
    requires
        entry.partials_unique(),
        entry.has_partial_from(addr),
    ensures
        exists|i: int|
            0 <= i < entry.partial_signatures.len() && #[trigger] entry.partial_signatures[i].0
                == addr && entry.partial_signatures[i].1 == entry.partial_from(addr),
{
    let c = choose|i: int|
        0 <= i < entry.partial_signatures.len() && #[trigger] entry.partial_signatures[i].0
            == addr;
    assert(0 <= c < entry.partial_signatures.len() && entry.partial_signatures[c].0 == addr);
    assert(entry.partial_signatures[c].1 == entry.partial_from(addr));
}

impl RandomnessResultCache {
    pub fn new(group_index: u32, task_index: u64, message: Vec<u8>, threshold: usize) -> (r:
        RandomnessResultCache)
        ensures
            r@ == RandomnessResultCacheView::empty(group_index, task_index, message@, threshold),
    {
        let r = RandomnessResultCache {
            group_index,
            task_index,
            message,
            threshold,
            committed: false,
            partial_signatures: Vec::new(),
        };
        proof {
            assert(r@.partial_signatures =~= Seq::<(Seq<u8>, Seq<u8>)>::empty());
            assert(r@ =~= RandomnessResultCacheView::empty(
                group_index,
                task_index,
                r.message@,
                threshold,
            ));
        }
        r
    }

    pub fn get_task_index(&self) -> (r: u64)
        ensures
            r == self@.task_index,
    {
        self.task_index
    }

    pub fn get_threshold(&self) -> (r: usize)
        ensures
            r == self@.threshold,
    {
        self.threshold
    }

    pub fn is_committed(&self) -> (r: bool)
        ensures
            r == self@.committed,
    {
        self.committed
    }

    pub fn partials_count(&self) -> (r: usize)
        ensures
            r == self@.partial_signatures.len(),
    {
        self.partial_signatures.len()
    }

    /// Whether a quorum is present and the entry still unfulfilled.
    pub fn is_ready(&self) -> (r: bool)
        ensures
            r == self@.ready(),
    {
        self.partial_signatures.len() >= self.threshold && !self.committed
    }

    pub fn has_partial_from(&self, addr: &Address) -> (r: bool)
        ensures
            r == self@.has_partial_from(addr@),
    {
        let n = self.partial_signatures.len();
        let mut i: usize = 0;
        while i < n
            invariant
                n == self@.partial_signatures.len(),
                i <= n,
                forall|j: int| 0 <= j < i ==> self@.partial_signatures[j].0 != addr@,
            decreases n - i,
        {
            if self.partial_signatures[i].0.equals(addr) {
                proof {
                    assert(self@.partial_signatures[i as int].0 == addr@);
                }
                return true;
            }
            i += 1;
        }
        false
    }

    /// The partial a member contributed, copied out, if any.
    pub fn get_partial(&self, addr: &Address) -> (r: Option<Vec<u8>>)
        requires
            self@.partials_unique(),
        ensures
            r is Some <==> self@.has_partial_from(addr@),
            r matches Some(s) ==> s@ == self@.partial_from(addr@),
    {
        let n = self.partial_signatures.len();
        let mut i: usize = 0;
        while i < n
            invariant
                self@.partials_unique(),
                n == self@.partial_signatures.len(),
                i <= n,
                forall|j: int| 0 <= j < i ==> self@.partial_signatures[j].0 != addr@,
            decreases n - i,
        {
            if self.partial_signatures[i].0.equals(addr) {
                proof {
                    assert(self@.partial_signatures[i as int].0 == addr@);
                    let c = choose|c: int|
                        0 <= c < self@.partial_signatures.len()
                            && #[trigger] self@.partial_signatures[c].0 == addr@;
                    assert(c == i as int);
                }
                return Some(clone_bytes(&self.partial_signatures[i].1));
            }
            i += 1;
        }
        None
    }

    /// Records a member's partial. A second partial from the same
    /// member is dropped without a trace and reported as such.
    pub fn add_partial(&mut self, member_address: Address, partial: Vec<u8>) -> (r: bool)
        ensures
            r == !old(self)@.has_partial_from(member_address@),
            r ==> final(self)@ == old(self)@.with_partial(member_address@, partial@),
            !r ==> final(self)@ == old(self)@,
    {
        if self.has_partial_from(&member_address) {
            false
        } else {
            let ghost addr_view = member_address@;
            let ghost sig_view = partial@;
            self.partial_signatures.push((member_address, partial));
            proof {
                assert(self@.partial_signatures =~= old(self)@.partial_signatures.push(
                    (addr_view, sig_view),
                ));
                assert(self@ =~= old(self)@.with_partial(addr_view, sig_view));
            }
            true
        }
    }
}

/// The ghost mirrors of a sequence of address-signature pairs.
pub open spec fn pair_views(s: Seq<(Address, Vec<u8>)>) -> Seq<(Seq<u8>, Seq<u8>)> {
    Seq::new(s.len(), |i: int| (s[i].0@, s[i].1@))
}

impl Clone for RandomnessResultCache {
    fn clone(&self) -> (r: Self)
        ensures
            r@ == self@,
    {
        let mut partials: Vec<(Address, Vec<u8>)> = Vec::new();
        let n = self.partial_signatures.len();
        let mut i: usize = 0;
        proof {
            assert(pair_views(partials@) =~= self@.partial_signatures.take(0));
        }
        while i < n
            invariant
                n == self@.partial_signatures.len(),
                i <= n,
                pair_views(partials@) == self@.partial_signatures.take(i as int),
            decreases n - i,
        {
            let pair = (
                self.partial_signatures[i].0.clone(),
                clone_bytes(&self.partial_signatures[i].1),
            );
            let ghost pair_first = pair.0@;
            let ghost pair_second = pair.1@;
            let ghost pre = pair_views(partials@);
            partials.push(pair);
            proof {
                assert(pair_views(partials@) =~= pre.push((pair_first, pair_second)));
                assert(pair_views(partials@) =~= self@.partial_signatures.take(i + 1));
            }
            i += 1;
        }
        proof {
            assert(self@.partial_signatures.take(n as int) =~= self@.partial_signatures);
        }
        let r = RandomnessResultCache {
            group_index: self.group_index,
            task_index: self.task_index,
            message: clone_bytes(&self.message),
            threshold: self.threshold,
            committed: self.committed,
            partial_signatures: partials,
        };
        proof {
            assert(r@.partial_signatures =~= self@.partial_signatures);
            assert(r@ =~= self@);
        }
        r
    }
}

/// Whether some entry carries the given index.
pub open spec fn spec_has_index(s: Seq<RandomnessResultCacheView>, task_index: u64) -> bool {
    exists|i: int| 0 <= i < s.len() && #[trigger] s[i].task_index == task_index
}

/// Where the entry under the given index sits, if anywhere.
pub open spec fn spec_entry_pos(s: Seq<RandomnessResultCacheView>, task_index: u64) -> int {
    choose|i: int| 0 <= i < s.len() && #[trigger] s[i].task_index == task_index
}

/// The entry under the given index.
pub open spec fn spec_entry(s: Seq<RandomnessResultCacheView>, task_index: u64) -> RandomnessResultCacheView {
    s[spec_entry_pos(s, task_index)]
}

/// A cache after making sure a task has an entry: untouched where one
/// exists, extended by a fresh entry where none does.
pub open spec fn spec_ensure_entry(
    s: Seq<RandomnessResultCacheView>,
    group_index: u32,
    task_index: u64,
    message: Seq<u8>,
    threshold: usize,
) -> Seq<RandomnessResultCacheView> {
    if spec_has_index(s, task_index) {
        s
    } else {
        s.push(RandomnessResultCacheView::empty(group_index, task_index, message, threshold))
    }
}

/// A cache after a member's partial arrived for a task: untouched
/// where the task has no entry or the member already contributed.
pub open spec fn spec_add_partial(
    s: Seq<RandomnessResultCacheView>,
    task_index: u64,
    addr: Seq<u8>,
    sig: Seq<u8>,
) -> Seq<RandomnessResultCacheView> {
    if !spec_has_index(s, task_index) {
        s
    } else {
        let p = spec_entry_pos(s, task_index);
        if s[p].has_partial_from(addr) {
            s
        } else {
            s.update(p, s[p].with_partial(addr, sig))
        }
    }
}

/// The per-chain signature-result store, keyed by task index.
pub struct InMemorySignatureResultCache {
    entries: Vec<RandomnessResultCache>,
}

impl View for InMemorySignatureResultCache {
    type V = Seq<RandomnessResultCacheView>;

    closed spec fn view(&self) -> Seq<RandomnessResultCacheView> {
        Seq::new(self.entries@.len(), |i: int| self.entries@[i]@)
    }
}

impl InMemorySignatureResultCache {
    /// No task appears twice, and no member appears twice inside any
    /// entry. Every mutation below preserves this.
    pub open spec fn wf(&self) -> bool {
        &&& forall|i: int, j: int|
            0 <= i < j < self@.len() ==> self@[i].task_index != self@[j].task_index
        &&& forall|i: int| 0 <= i < self@.len() ==> (#[trigger] self@[i]).partials_unique()
    }

    pub fn new() -> (r: InMemorySignatureResultCache)
        ensures
            r@ == Seq::<RandomnessResultCacheView>::empty(),
            r.wf(),
    {
        let r = InMemorySignatureResultCache { entries: Vec::new() };
        proof {
            assert(r@ =~= Seq::<RandomnessResultCacheView>::empty());
        }
        r
    }

    /// Finds the slot of the entry for a task.
    fn find_entry(&self, task_index: u64) -> (r: Option<usize>)
        requires
            self.wf(),
        ensures
            r is Some <==> spec_has_index(self@, task_index),
            r matches Some(p) ==> p == spec_entry_pos(self@, task_index) && p < self@.len()
                && self@[p as int].task_index == task_index,
    {
        let n = self.entries.len();
        let mut i: usize = 0;
        while i < n
            invariant
                self.wf(),
                n == self@.len(),
                i <= n,
                forall|j: int| 0 <= j < i ==> self@[j].task_index != task_index,
            decreases n - i,
        {
            if self.entries[i].task_index == task_index {
                proof {
                    assert(self@[i as int].task_index == task_index);
                    let p = spec_entry_pos(self@, task_index);
                    assert(0 <= p < self@.len() && self@[p].task_index == task_index);
                    assert(p == i as int);
                }
                return Some(i);
            }
            i += 1;
        }
        None
    }

    pub fn contains(&self, task_index: u64) -> (r: bool)
        requires
            self.wf(),
        ensures
            r == spec_has_index(self@, task_index),
    {
        self.find_entry(task_index).is_some()
    }

    /// Makes sure the task has an entry, creating a fresh one where
    /// none exists. Reports whether an entry was created.
    pub fn add(
        &mut self,
        group_index: u32,
        task_index: u64,
        message: Vec<u8>,
        threshold: usize,
    ) -> (r: bool)
        requires
            old(self).wf(),
        ensures
            final(self).wf(),
            r == !spec_has_index(old(self)@, task_index),
            final(self)@ == spec_ensure_entry(
                old(self)@,
                group_index,
                task_index,
                message@,
                threshold,
            ),
            spec_has_index(final(self)@, task_index),
    {
        if self.contains(task_index) {
            return false;
        }
        let ghost pre = self@;
        let entry = RandomnessResultCache::new(group_index, task_index, message, threshold);
        let ghost entry_view = entry@;
        self.entries.push(entry);
        proof {
            assert(self@ =~= pre.push(entry_view));
            assert(self@[pre.len() as int].task_index == task_index);
            assert(self.wf());
        }
        true
    }

    /// Records a member's partial for a task. `Err` when the task has
    /// no entry; `Ok(false)` when this member already contributed
    /// (the duplicate is dropped); `Ok(true)` otherwise.
    pub fn add_partial_signature(
        &mut self,
        task_index: u64,
        member_address: Address,
        partial: Vec<u8>,
    ) -> (r: NodeResult<bool>)
        requires
            old(self).wf(),
        ensures
            final(self).wf(),
            r is Err <==> !spec_has_index(old(self)@, task_index),
            r matches Err(e) ==> e == NodeError::CommitterCacheNotExisted && final(self)@ == old(
                self,
            )@,
            r is Ok ==> final(self)@ == spec_add_partial(
                old(self)@,
                task_index,
                member_address@,
                partial@,
            ),
            r matches Ok(fresh) ==> fresh == !spec_entry(old(self)@, task_index).has_partial_from(
                member_address@,
            ),
    {
        let pos = match self.find_entry(task_index) {
            Some(p) => p,
            None => {
                return Err(NodeError::CommitterCacheNotExisted);
            },
        };
        let ghost pre = self@;
        let ghost addr_view = member_address@;
        let ghost sig_view = partial@;
        let entry = &mut self.entries[pos];
        let fresh = entry.add_partial(member_address, partial);
        proof {
            assert(self@ =~= pre.update(
                pos as int,
                if fresh {
                    pre[pos as int].with_partial(addr_view, sig_view)
                } else {
                    pre[pos as int]
                },
            ));
            if !fresh {
                assert(self@ =~= pre);
            }
            assert(self.wf());
        }
        Ok(fresh)
    }

    /// The entries a committer should aggregate now: a quorum of
    /// partials present and not yet fulfilled. Copies are handed out;
    /// the cache itself is left as it was.
    pub fn get_ready_to_commit_signatures(&self) -> (r: Vec<RandomnessResultCache>)
        requires
            self.wf(),
        ensures
            views_of(r@) == self@.filter(|e: RandomnessResultCacheView| e.ready()),
    {
        let mut out: Vec<RandomnessResultCache> = Vec::new();
        let n = self.entries.len();
        let mut i: usize = 0;
        proof {
            assert(views_of(out@) =~= Seq::<RandomnessResultCacheView>::empty());
            assert(self@.take(0).filter(|e: RandomnessResultCacheView| e.ready())
                =~= Seq::<RandomnessResultCacheView>::empty());
        }
        while i < n
            invariant
                self.wf(),
                n == self@.len(),
                i <= n,
                views_of(out@) == self@.take(i as int).filter(
                    |e: RandomnessResultCacheView| e.ready(),
                ),
            decreases n - i,
        {
            let ghost pred = |e: RandomnessResultCacheView| e.ready();
            let ghost pre_out = views_of(out@);
            if self.entries[i].is_ready() {
                let copy = self.entries[i].clone();
                out.push(copy);
                proof {
                    assert(views_of(out@) =~= pre_out.push(self@[i as int]));
                }
            }
            proof {
                assert(self@.take(i + 1).drop_last() =~= self@.take(i as int));
                assert(self@.take(i + 1).last() == self@[i as int]);
                reveal_with_fuel(Seq::filter, 2);
                assert(views_of(out@) =~= self@.take(i + 1).filter(pred));
            }
            i += 1;
        }
        proof {
            assert(self@.take(n as int) =~= self@);
        }
        out
    }

    /// Marks a task fulfilled. `Err` when the task has no entry; once
    /// marked, the entry never again counts as ready.
    pub fn mark_committed(&mut self, task_index: u64) -> (r: NodeResult<()>)
        requires
            old(self).wf(),
        ensures
            final(self).wf(),
            r is Err <==> !spec_has_index(old(self)@, task_index),
            r matches Err(e) ==> e == NodeError::CommitterCacheNotExisted && final(self)@ == old(
                self,
            )@,
            r is Ok ==> final(self)@ == old(self)@.update(
                spec_entry_pos(old(self)@, task_index),
                spec_entry(old(self)@, task_index).as_committed(),
            ),
    {
        let pos = match self.find_entry(task_index) {
            Some(p) => p,
            None => {
                return Err(NodeError::CommitterCacheNotExisted);
            },
        };
        let ghost pre = self@;
        let entry = &mut self.entries[pos];
        entry.committed = true;
        proof {
            assert(self@ =~= pre.update(pos as int, pre[pos as int].as_committed()));
            assert(self.wf());
        }
        Ok(())
    }
}

/// The ghost mirrors of a sequence of entries.
pub open spec fn views_of(s: Seq<RandomnessResultCache>) -> Seq<RandomnessResultCacheView> {
    Seq::new(s.len(), |i: int| s[i]@)
}

/// Fewer partials than the threshold never make an entry ready, so
/// the aggregation listener cannot emit it.
pub proof fn lemma_below_threshold_never_ready(entry: RandomnessResultCacheView)
    requires
        entry.partial_signatures.len() < entry.threshold,
    ensures
        !entry.ready(),
{
}

/// Whether every partial anywhere in a cache was sent by a member of
/// the group.
pub open spec fn cache_keys_are_members(s: Seq<RandomnessResultCacheView>, group: Group) -> bool {
    forall|i: int, j: int|
        0 <= i < s.len() && 0 <= j < s[i].partial_signatures.len() ==> group.spec_is_member(
            #[trigger] s[i].partial_signatures[j].0,
        )
}

/// Locating or creating an entry adds no partial, so it cannot bring
/// a stranger into the cache.
pub proof fn lemma_ensure_entry_keeps_member_keys(
    s: Seq<RandomnessResultCacheView>,
    group: Group,
    group_index: u32,
    task_index: u64,
    message: Seq<u8>,
    threshold: usize,
)
    requires
        cache_keys_are_members(s, group),
    ensures
        cache_keys_are_members(
            spec_ensure_entry(s, group_index, task_index, message, threshold),
            group,
        ),
{
    let post = spec_ensure_entry(s, group_index, task_index, message, threshold);
    assert forall|i: int, j: int|
        0 <= i < post.len() && 0 <= j < post[i].partial_signatures.len() implies group.spec_is_member(
        #[trigger] post[i].partial_signatures[j].0,
    ) by {
        if i < s.len() {
            assert(post[i] == s[i]);
        }
    }
}

/// Recording a member's partial keeps every partial in the cache a
/// member's: the signature cache never outgrows the group.
pub proof fn lemma_add_partial_keeps_member_keys(
    s: Seq<RandomnessResultCacheView>,
    group: Group,
    task_index: u64,
    addr: Seq<u8>,
    sig: Seq<u8>,
)
    requires
        cache_keys_are_members(s, group),
        group.spec_is_member(addr),
    ensures
        cache_keys_are_members(spec_add_partial(s, task_index, addr, sig), group),
{
    let post = spec_add_partial(s, task_index, addr, sig);
    assert forall|i: int, j: int|
        0 <= i < post.len() && 0 <= j < post[i].partial_signatures.len() implies group.spec_is_member(
        #[trigger] post[i].partial_signatures[j].0,
    ) by {
        if spec_has_index(s, task_index) {
            let p = spec_entry_pos(s, task_index);
            if i == p && !s[p].has_partial_from(addr) {
                if j < s[p].partial_signatures.len() {
                    assert(post[i].partial_signatures[j] == s[i].partial_signatures[j]);
                } else {
                    assert(post[i].partial_signatures[j].0 == addr);
                }
            } else {
                assert(post[i] == s[i]);
            }
        } else {
            assert(post[i] == s[i]);
        }
    }
}

/// Every entry surviving a filter occurs in the cache it was
/// filtered from.
proof fn lemma_ready_filter_elements_occur(
    s: Seq<RandomnessResultCacheView>,
    pred: spec_fn(RandomnessResultCacheView) -> bool,
)
    ensures
        forall|i: int|
            0 <= i < s.filter(pred).len() ==> s.contains(#[trigger] s.filter(pred)[i]),
    decreases s.len(),
{
    reveal(Seq::filter);
    if s.len() > 0 {
        let d = s.drop_last();
        lemma_ready_filter_elements_occur(d, pred);
        assert forall|i: int|
            0 <= i < s.filter(pred).len() implies s.contains(#[trigger] s.filter(pred)[i]) by {
            if pred(s.last()) && i == s.filter(pred).len() - 1 {
                assert(s.filter(pred)[i] == s.last());
                assert(s[s.len() - 1] == s.last());
            } else {
                assert(s.filter(pred)[i] == d.filter(pred)[i]);
                assert(d.contains(d.filter(pred)[i]));
                let k = choose|k: int| 0 <= k < d.len() && d[k] == d.filter(pred)[i];
                assert(s[k] == d.filter(pred)[i]);
            }
        }
    }
}

/// The entries an aggregation pass would emit: a quorum present and
/// not yet fulfilled.
pub open spec fn ready_entries(s: Seq<RandomnessResultCacheView>) -> Seq<
    RandomnessResultCacheView,
> {
    s.filter(|e: RandomnessResultCacheView| e.ready())
}

/// Once a task is marked committed, no aggregation pass ever sees it
/// as ready again: the ready set of the updated cache holds no entry
/// under its index.
pub proof fn lemma_committed_task_not_ready_again(
    s: Seq<RandomnessResultCacheView>,
    task_index: u64,
)
    requires
        forall|i: int, j: int| 0 <= i < j < s.len() ==> s[i].task_index != s[j].task_index,
        spec_has_index(s, task_index),
    ensures
        forall|k: int|
            0 <= k < ready_entries(
                s.update(spec_entry_pos(s, task_index), spec_entry(s, task_index).as_committed()),
            ).len() ==> (#[trigger] ready_entries(
                s.update(spec_entry_pos(s, task_index), spec_entry(s, task_index).as_committed()),
            )[k]).task_index != task_index,
{
    broadcast use vstd::seq_lib::group_filter_ensures;

    let pos = spec_entry_pos(s, task_index);
    assert(0 <= pos < s.len() && s[pos].task_index == task_index);
    let marked = s.update(pos, spec_entry(s, task_index).as_committed());
    let pred = |e: RandomnessResultCacheView| e.ready();
    lemma_ready_filter_elements_occur(marked, pred);
    assert forall|k: int|
        0 <= k < ready_entries(marked).len() implies (#[trigger] ready_entries(
        marked,
    )[k]).task_index != task_index by {
        assert(ready_entries(marked)[k] == marked.filter(pred)[k]);
        assert(marked.contains(marked.filter(pred)[k]));
        let j = choose|j: int| 0 <= j < marked.len() && marked[j] == marked.filter(pred)[k];
        assert(pred(marked.filter(pred)[k]));
        if j == pos {
            assert(!marked[j].ready());
        } else {
            assert(marked[j] == s[j]);
            assert(s[j].task_index != task_index);
        }
    }
}

} // verus!
