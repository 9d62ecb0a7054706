use vstd::prelude::*;
use crate::types::{PriceFeedId, PriceFeedUpdate, PriceFeedUpdateView, opt_update_view};

verus! {

/// What an insertion did to a feed's index.
#[derive(Clone, Copy, Debug, PartialEq, Eq, Structural)]
pub enum InsertOutcome {
    /// Stored; it is not newer than every update already held.
    Inserted,
    /// Stored as the new latest update, strictly newer than the previous one.
    Superseded,
    /// An equal observation with this publish time is already held; nothing changed.
    Duplicate,
    /// A different observation with this publish time is held; it is kept.
    Conflict,
}

/// Publish times strictly increase along the sequence.
pub open spec fn sorted_by_time(s: Seq<PriceFeedUpdateView>) -> bool {
    forall|i: int, j: int| 0 <= i < j < s.len() ==> s[i].publish_time() < s[j].publish_time()
}

/// Linear scan: the index of the first update whose publish time is at least `t`
/// (the length when there is none).
pub open spec fn rank(s: Seq<PriceFeedUpdateView>, t: int) -> nat
    decreases s.len(),
{
    if s.len() == 0 {
        0
    } else if s[0].publish_time() < t {
        1 + rank(s.drop_first(), t)
    } else {
        0
    }
}

/// `k` splits `s` into the updates before `t` and those at or after it.
pub open spec fn splits_at(s: Seq<PriceFeedUpdateView>, t: int, k: int) -> bool {
    &&& 0 <= k <= s.len()
    &&& forall|i: int| 0 <= i < k ==> s[i].publish_time() < t
    &&& forall|i: int| k <= i < s.len() ==> s[i].publish_time() >= t
}

/// The first update at or after `t`, by linear scan.
pub open spec fn first_at_or_after_spec(s: Seq<PriceFeedUpdateView>, t: int) -> Option<PriceFeedUpdateView> {
    let k = rank(s, t);
    if k < s.len() {
        Some(s[k as int])
    } else {
        None
    }
}

/// The latest update of a feed.
pub open spec fn latest_spec(s: Seq<PriceFeedUpdateView>) -> Option<PriceFeedUpdateView> {
    if s.len() == 0 {
        None
    } else {
        Some(s.last())
    }
}

/// The outcome and the new contents of inserting `u` into `s`.
pub open spec fn insert_spec(s: Seq<PriceFeedUpdateView>, u: PriceFeedUpdateView) -> (InsertOutcome, Seq<PriceFeedUpdateView>) {
    let k = rank(s, u.publish_time());
    if k < s.len() && s[k as int].publish_time() == u.publish_time() {
        if s[k as int].same_content(u) {
            (InsertOutcome::Duplicate, s)
        } else {
            (InsertOutcome::Conflict, s)
        }
    } else if s.len() > 0 && k == s.len() {
        (InsertOutcome::Superseded, s.insert(k as int, u))
    } else {
        (InsertOutcome::Inserted, s.insert(k as int, u))
    }
}

/// What is left after evicting the updates older than `horizon` seconds before
/// the latest one.
pub open spec fn evict_spec(s: Seq<PriceFeedUpdateView>, horizon: int) -> Seq<PriceFeedUpdateView> {
    if s.len() == 0 {
        s
    } else {
        s.subrange(rank(s, s.last().publish_time() - horizon) as int, s.len() as int)
    }
}

/// In a sorted sequence the linear scan stops exactly at the split point.
pub proof fn lemma_rank_is_split(s: Seq<PriceFeedUpdateView>, t: int, k: int)
    requires
        splits_at(s, t, k),
    ensures
        rank(s, t) == k,
    decreases s.len(),
{
    if s.len() > 0 && k > 0 {
        let d = s.drop_first();
        assert(splits_at(d, t, k - 1)) by {
            assert forall|i: int| 0 <= i < k - 1 implies d[i].publish_time() < t by {
                assert(d[i] == s[i + 1]);
            }
            assert forall|i: int| k - 1 <= i < d.len() implies d[i].publish_time() >= t by {
                assert(d[i] == s[i + 1]);
            }
        }
        lemma_rank_is_split(d, t, k - 1);
    }
}

/// The linear scan returns a split point of a sorted sequence.
pub proof fn lemma_rank_splits(s: Seq<PriceFeedUpdateView>, t: int)
    requires
        sorted_by_time(s),
    ensures
        splits_at(s, t, rank(s, t) as int),
    decreases s.len(),
{
    if s.len() > 0 && s[0].publish_time() < t {
        let d = s.drop_first();
        assert(sorted_by_time(d)) by {
            assert forall|i: int, j: int| 0 <= i < j < d.len() implies d[i].publish_time() < d[j].publish_time() by {
                assert(d[i] == s[i + 1] && d[j] == s[j + 1]);
            }
        }
        lemma_rank_splits(d, t);
        assert forall|i: int| 0 <= i < rank(s, t) implies s[i].publish_time() < t by {
            if i > 0 {
                assert(s[i] == d[i - 1]);
            }
        }
        assert forall|i: int| rank(s, t) <= i < s.len() implies s[i].publish_time() >= t by {
            assert(s[i] == d[i - 1]);
        }
    } else if s.len() > 0 {
        assert forall|i: int| 0 <= i < s.len() implies s[i].publish_time() >= t by {
            if i > 0 {
                assert(s[0].publish_time() < s[i].publish_time());
            }
        }
    }
}

/// Inserting `u` where no update with its publish time is held keeps the
/// sequence sorted and places `u` where the scan for its publish time stops.
pub proof fn lemma_insert_fresh(s: Seq<PriceFeedUpdateView>, u: PriceFeedUpdateView)
    requires
        sorted_by_time(s),
        forall|i: int| 0 <= i < s.len() ==> s[i].publish_time() != u.publish_time(),
    ensures
        rank(s, u.publish_time()) <= s.len(),
        sorted_by_time(s.insert(rank(s, u.publish_time()) as int, u)),
        rank(s.insert(rank(s, u.publish_time()) as int, u), u.publish_time()) == rank(s, u.publish_time()),
        s.insert(rank(s, u.publish_time()) as int, u)[rank(s, u.publish_time()) as int] == u,
{
    let t = u.publish_time();
    lemma_rank_splits(s, t);
    let k = rank(s, t) as int;
    let s1 = s.insert(k, u);
    assert forall|i: int, j: int| 0 <= i < j < s1.len() implies s1[i].publish_time() < s1[j].publish_time() by {
        if i < k && j > k {
            assert(s1[i] == s[i] && s1[j] == s[j - 1]);
        } else if i < k && j < k {
            assert(s1[i] == s[i] && s1[j] == s[j]);
        } else if i > k {
            assert(s1[i] == s[i - 1] && s1[j] == s[j - 1]);
        } else if i == k {
            assert(s1[j] == s[j - 1]);
        }
    }
    assert(splits_at(s1, t, k)) by {
        assert forall|i: int| 0 <= i < k implies s1[i].publish_time() < t by {
            assert(s1[i] == s[i]);
        }
        assert forall|i: int| k <= i < s1.len() implies s1[i].publish_time() >= t by {
            if i > k {
                assert(s1[i] == s[i - 1]);
            }
        }
    }
    lemma_rank_is_split(s1, t, k);
}

/// The latest update of a feed has the greatest publish time among those
/// retained, and an update newer than all of them becomes the latest.
pub proof fn law_latest_is_newest(s: Seq<PriceFeedUpdateView>, u: PriceFeedUpdateView)
    requires
        sorted_by_time(s),
    ensures
        s.len() > 0 ==> latest_spec(s) == Some(s.last())
            && forall|i: int| 0 <= i < s.len() ==> s[i].publish_time() <= s.last().publish_time(),
        (forall|i: int| 0 <= i < s.len() ==> s[i].publish_time() < u.publish_time()) ==>
            latest_spec(insert_spec(s, u).1) == Some(u),
{
    if forall|i: int| 0 <= i < s.len() ==> s[i].publish_time() < u.publish_time() {
        assert(splits_at(s, u.publish_time(), s.len() as int));
        lemma_rank_is_split(s, u.publish_time(), s.len() as int);
        assert(s.insert(s.len() as int, u).last() == u);
    }
}

/// The first update at or after `t` has the smallest publish time that is at
/// least `t`; there is none exactly when every retained update is older than `t`.
pub proof fn law_first_at_or_after_is_minimal(s: Seq<PriceFeedUpdateView>, t: int)
    requires
        sorted_by_time(s),
    ensures
        match first_at_or_after_spec(s, t) {
            Some(x) => s.contains(x) && x.publish_time() >= t && forall|i: int|
                0 <= i < s.len() && s[i].publish_time() >= t ==> x.publish_time() <= s[i].publish_time(),
            None => forall|i: int| 0 <= i < s.len() ==> s[i].publish_time() < t,
        },
{
    lemma_rank_splits(s, t);
    let k = rank(s, t) as int;
    if k < s.len() {
        assert(s[k] == s[k]);
        assert forall|i: int| 0 <= i < s.len() && s[i].publish_time() >= t implies
            s[k].publish_time() <= s[i].publish_time() by {
            if i > k {
                assert(s[k].publish_time() < s[i].publish_time());
            }
        }
    }
}

/// Inserting the same observation twice: the second insertion is a duplicate
/// and changes nothing (unless a different observation already held its publish time).
pub proof fn law_insert_idempotent(s: Seq<PriceFeedUpdateView>, u: PriceFeedUpdateView)
    requires
        sorted_by_time(s),
        forall|i: int| 0 <= i < s.len() && s[i].publish_time() == u.publish_time() ==> s[i].same_content(u),
    ensures
        insert_spec(insert_spec(s, u).1, u) == (InsertOutcome::Duplicate, insert_spec(s, u).1),
{
    if forall|i: int| 0 <= i < s.len() ==> s[i].publish_time() != u.publish_time() {
        lemma_insert_fresh(s, u);
    } else {
        lemma_rank_splits(s, u.publish_time());
    }
}

/// Two different observations with one publish time: the second insertion is
/// a conflict, and the first observation is the one kept.
pub proof fn law_conflict_keeps_first(s: Seq<PriceFeedUpdateView>, a: PriceFeedUpdateView, b: PriceFeedUpdateView)
    requires
        sorted_by_time(s),
        a.publish_time() == b.publish_time(),
        !a.same_content(b),
        forall|i: int| 0 <= i < s.len() ==> s[i].publish_time() != a.publish_time(),
    ensures
        insert_spec(s, a).0 != InsertOutcome::Duplicate && insert_spec(s, a).0 != InsertOutcome::Conflict,
        insert_spec(s, a).1.contains(a),
        insert_spec(insert_spec(s, a).1, b) == (InsertOutcome::Conflict, insert_spec(s, a).1),
{
    lemma_insert_fresh(s, a);
    lemma_rank_splits(s, a.publish_time());
    let k = rank(s, a.publish_time()) as int;
    if k < s.len() {
        assert(s[k].publish_time() != a.publish_time());
    }
    assert(insert_spec(s, a).1[k] == a);
}

/// The retained updates of one feed, ordered by publish time.
pub struct FeedIndex {
    id: PriceFeedId,
    entries: Vec<PriceFeedUpdate>,
}

impl View for FeedIndex {
    type V = Seq<PriceFeedUpdateView>;

    closed spec fn view(&self) -> Seq<PriceFeedUpdateView> {
        self.entries@.map_values(|e: PriceFeedUpdate| e@)
    }
}

impl FeedIndex {
    /// Publish times strictly increase and every update belongs to this feed.
    pub open spec fn wf(&self) -> bool {
        &&& sorted_by_time(self@)
        &&& forall|i: int| 0 <= i < self@.len() ==> (#[trigger] self@[i]).feed_id == self.id_view()
    }

    /// The identifier of the feed.
    pub closed spec fn id_view(&self) -> Seq<u8> {
        self.id@
    }

    pub fn id(&self) -> (r: &PriceFeedId)
        ensures
            r@ == self.id_view(),
    {
        &self.id
    }

    pub fn new(id: PriceFeedId) -> (r: FeedIndex)
        ensures
            r.wf(),
            r.id_view() == id@,
            r@ == Seq::<PriceFeedUpdateView>::empty(),
    {
        let r = FeedIndex { id, entries: Vec::new() };
        assert(r@ =~= Seq::<PriceFeedUpdateView>::empty());
        r
    }

    pub fn len(&self) -> (r: usize)
        ensures
            r == self@.len(),
    {
        self.entries.len()
    }

    /// Binary search for the first update whose publish time is at least `t`.
    fn lower_bound(&self, t: i128) -> (k: usize)
        requires
            self.wf(),
        ensures
            k == rank(self@, t as int),
            splits_at(self@, t as int, k as int),
    {
        let mut lo: usize = 0;
        let mut hi: usize = self.entries.len();
        while lo < hi
            invariant
                self.wf(),
                0 <= lo <= hi <= self@.len(),
                self@.len() == self.entries@.len(),
                forall|i: int| 0 <= i < lo ==> self@[i].publish_time() < t,
                forall|i: int| hi <= i < self@.len() ==> self@[i].publish_time() >= t,
            decreases hi - lo,
        {
            let mid = lo + (hi - lo) / 2;
            assert(self@[mid as int] == self.entries@[mid as int]@);
            if (self.entries[mid].price.publish_time as i128) < t {
                assert forall|i: int| 0 <= i <= mid implies self@[i].publish_time() < t by {
                    if i < mid {
                        assert(self@[i].publish_time() < self@[mid as int].publish_time());
                    }
                }
                lo = mid + 1;
            } else {
                assert forall|i: int| mid <= i < self@.len() implies self@[i].publish_time() >= t by {
                    if i > mid {
                        assert(self@[mid as int].publish_time() < self@[i].publish_time());
                    }
                }
                hi = mid;
            }
        }
        proof {
            lemma_rank_is_split(self@, t as int, lo as int);
        }
        lo
    }

    /// The update with the greatest publish time, if any.
    pub fn latest(&self) -> (r: Option<PriceFeedUpdate>)
        requires
            self.wf(),
        ensures
            opt_update_view(r) == latest_spec(self@),
    {
        let n = self.entries.len();
        if n == 0 {
            None
        } else {
            assert(self@[n - 1] == self.entries@[n - 1]@);
            Some(self.entries[n - 1].duplicate())
        }
    }

    /// The update with the smallest publish time at or after `t`, if one is retained.
    pub fn first_at_or_after(&self, t: i64) -> (r: Option<PriceFeedUpdate>)
        requires
            self.wf(),
        ensures
            opt_update_view(r) == first_at_or_after_spec(self@, t as int),
    {
        let k = self.lower_bound(t as i128);
        if k < self.entries.len() {
            assert(self@[k as int] == self.entries@[k as int]@);
            Some(self.entries[k].duplicate())
        } else {
            None
        }
    }

    /// Stores `u` unless an update with its publish time is already held.
    pub fn insert(&mut self, u: PriceFeedUpdate) -> (r: InsertOutcome)
        requires
            old(self).wf(),
            u.feed_id@ == old(self).id_view(),
        ensures
            final(self).wf(),
            final(self).id_view() == old(self).id_view(),
            (r, final(self)@) == insert_spec(old(self)@, u@),
    {
        let ghost s = self@;
        let k = self.lower_bound(u.price.publish_time as i128);
        let n = self.entries.len();
        if k < n && self.entries[k].price.publish_time == u.price.publish_time {
            assert(s[k as int] == self.entries@[k as int]@);
            if self.entries[k].same_content(&u) {
                InsertOutcome::Duplicate
            } else {
                InsertOutcome::Conflict
            }
        } else {
            proof {
                if k < n {
                    assert(s[k as int] == self.entries@[k as int]@);
                }
            }
            self.entries.insert(k, u);
            assert(self@ =~= s.insert(k as int, u@));
            assert(sorted_by_time(self@)) by {
                assert forall|i: int, j: int| 0 <= i < j < self@.len() implies
                    self@[i].publish_time() < self@[j].publish_time() by {
                    if i < k && j > k {
                        assert(self@[i] == s[i] && self@[j] == s[j - 1]);
                    } else if i < k && j < k {
                        assert(self@[i] == s[i] && self@[j] == s[j]);
                    } else if i > k {
                        assert(self@[i] == s[i - 1] && self@[j] == s[j - 1]);
                    }
                }
            }
            assert forall|i: int| 0 <= i < self@.len() implies (#[trigger] self@[i]).feed_id == self.id@ by {
                if i < k {
                    assert(self@[i] == s[i]);
                } else if i > k {
                    assert(self@[i] == s[i - 1]);
                }
            }
            if n > 0 && k == n {
                InsertOutcome::Superseded
            } else {
                InsertOutcome::Inserted
            }
        }
    }

    /// Drops the updates older than `horizon` seconds before the latest one;
    /// the latest update always stays.
    pub fn evict(&mut self, horizon: u64)
        requires
            old(self).wf(),
        ensures
            final(self).wf(),
            final(self).id_view() == old(self).id_view(),
            final(self)@ == evict_spec(old(self)@, horizon as int),
            old(self)@.len() > 0 ==> final(self)@.len() > 0 && final(self)@.last() == old(self)@.last(),
    {
        let ghost s = self@;
        let n = self.entries.len();
        if n == 0 {
            return;
        }
        assert(s.last() == self.entries@[n - 1]@);
        let cut = (self.entries[n - 1].price.publish_time as i128) - (horizon as i128);
        let k = self.lower_bound(cut);
        assert(k < n);
        let kept = self.entries.split_off(k);
        self.entries = kept;
        assert(self@ =~= s.subrange(k as int, n as int));
        assert forall|i: int| 0 <= i < self@.len() implies (#[trigger] self@[i]).feed_id == self.id@ by {
            assert(self@[i] == s[i + k]);
        }
        assert forall|i: int, j: int| 0 <= i < j < self@.len() implies
            self@[i].publish_time() < self@[j].publish_time() by {
            assert(self@[i] == s[i + k] && self@[j] == s[j + k]);
        }
    }
}

} // verus!

verus! {

/// Position of the first occurrence of `id` in `ids` (the length when absent).
pub open spec fn find_id(ids: Seq<Seq<u8>>, id: Seq<u8>) -> nat
    decreases ids.len(),
{
    if ids.len() == 0 {
        0
    } else if ids[0] == id {
        0
    } else {
        1 + find_id(ids.drop_first(), id)
    }
}

proof fn lemma_find_id_facts(ids: Seq<Seq<u8>>, id: Seq<u8>)
    ensures
        find_id(ids, id) <= ids.len(),
        forall|j: int| 0 <= j < find_id(ids, id) ==> ids[j] != id,
        find_id(ids, id) < ids.len() ==> ids[find_id(ids, id) as int] == id,
    decreases ids.len(),
{
    if ids.len() > 0 && ids[0] != id {
        let d = ids.drop_first();
        lemma_find_id_facts(d, id);
        assert forall|j: int| 0 <= j < find_id(ids, id) implies ids[j] != id by {
            if j > 0 {
                assert(ids[j] == d[j - 1]);
            }
        }
    }
}

proof fn lemma_find_id(ids: Seq<Seq<u8>>, id: Seq<u8>, k: int)
    requires
        0 <= k <= ids.len(),
        forall|j: int| 0 <= j < k ==> ids[j] != id,
        k < ids.len() ==> ids[k] == id,
    ensures
        find_id(ids, id) == k,
    decreases ids.len(),
{
    if ids.len() > 0 && k > 0 {
        let d = ids.drop_first();
        assert forall|j: int| 0 <= j < k - 1 implies d[j] != id by {
            assert(d[j] == ids[j + 1]);
        }
        lemma_find_id(d, id, k - 1);
    }
}

/// The updates of an absent feed: none.
pub open spec fn feed_or_empty(m: Map<Seq<u8>, Seq<PriceFeedUpdateView>>, id: Seq<u8>) -> Seq<PriceFeedUpdateView> {
    if m.contains_key(id) {
        m[id]
    } else {
        Seq::empty()
    }
}

/// The outcome and the new store of inserting `u` into the store `m`.
pub open spec fn store_insert(m: Map<Seq<u8>, Seq<PriceFeedUpdateView>>, u: PriceFeedUpdateView) -> (InsertOutcome, Map<Seq<u8>, Seq<PriceFeedUpdateView>>) {
    let (o, s) = insert_spec(feed_or_empty(m, u.feed_id), u);
    (o, m.insert(u.feed_id, s))
}

/// The outcomes and the final store of inserting `us` one after the other.
pub open spec fn insert_all(m: Map<Seq<u8>, Seq<PriceFeedUpdateView>>, us: Seq<PriceFeedUpdateView>) -> (Seq<InsertOutcome>, Map<Seq<u8>, Seq<PriceFeedUpdateView>>)
    decreases us.len(),
{
    if us.len() == 0 {
        (Seq::empty(), m)
    } else {
        let (os, m1) = insert_all(m, us.drop_last());
        let (o, m2) = store_insert(m1, us.last());
        (os.push(o), m2)
    }
}

/// One outcome per inserted update.
pub proof fn lemma_insert_all_len(m: Map<Seq<u8>, Seq<PriceFeedUpdateView>>, us: Seq<PriceFeedUpdateView>)
    ensures
        insert_all(m, us).0.len() == us.len(),
    decreases us.len(),
{
    if us.len() > 0 {
        lemma_insert_all_len(m, us.drop_last());
    }
}

/// The time indexes of all feeds, one per feed identifier.
pub struct PriceStore {
    feeds: Vec<FeedIndex>,
}

impl PriceStore {
    pub closed spec fn ids(&self) -> Seq<Seq<u8>> {
        self.feeds@.map_values(|f: FeedIndex| f.id_view())
    }
}

impl View for PriceStore {
    type V = Map<Seq<u8>, Seq<PriceFeedUpdateView>>;

    closed spec fn view(&self) -> Map<Seq<u8>, Seq<PriceFeedUpdateView>> {
        Map::new(
            |k: Seq<u8>| find_id(self.ids(), k) < self.feeds@.len(),
            |k: Seq<u8>| self.feeds@[find_id(self.ids(), k) as int]@,
        )
    }
}

impl PriceStore {
    /// Every feed's index is well formed.
    pub closed spec fn wf(&self) -> bool {
        forall|i: int| 0 <= i < self.feeds@.len() ==> (#[trigger] self.feeds@[i]).wf()
    }

    pub fn new() -> (r: PriceStore)
        ensures
            r.wf(),
            r@ == Map::<Seq<u8>, Seq<PriceFeedUpdateView>>::empty(),
    {
        let r = PriceStore { feeds: Vec::new() };
        assert(r@ =~= Map::<Seq<u8>, Seq<PriceFeedUpdateView>>::empty());
        r
    }

    fn position(&self, id: &PriceFeedId) -> (r: usize)
        ensures
            r == find_id(self.ids(), id@),
    {
        let mut i: usize = 0;
        while i < self.feeds.len()
            invariant
                0 <= i <= self.feeds@.len(),
                self.ids().len() == self.feeds@.len(),
                forall|j: int| 0 <= j < i ==> self.ids()[j] != id@,
            decreases self.feeds@.len() - i,
        {
            if self.feeds[i].id().same_as(id) {
                proof {
                    lemma_find_id(self.ids(), id@, i as int);
                }
                return i;
            }
            i = i + 1;
        }
        proof {
            lemma_find_id(self.ids(), id@, i as int);
        }
        i
    }

    /// Whether any update of feed `id` has ever been stored.
    pub fn contains(&self, id: &PriceFeedId) -> (r: bool)
        ensures
            r == self@.contains_key(id@),
    {
        self.position(id) < self.feeds.len()
    }

    /// The latest update of feed `id`.
    pub fn latest(&self, id: &PriceFeedId) -> (r: Option<PriceFeedUpdate>)
        requires
            self.wf(),
        ensures
            opt_update_view(r) == latest_spec(feed_or_empty(self@, id@)),
    {
        let k = self.position(id);
        if k < self.feeds.len() {
            assert(self.feeds@[k as int].wf());
            self.feeds[k].latest()
        } else {
            None
        }
    }

    /// The first update of feed `id` at or after `t`.
    pub fn first_at_or_after(&self, id: &PriceFeedId, t: i64) -> (r: Option<PriceFeedUpdate>)
        requires
            self.wf(),
        ensures
            opt_update_view(r) == first_at_or_after_spec(feed_or_empty(self@, id@), t as int),
    {
        let k = self.position(id);
        if k < self.feeds.len() {
            assert(self.feeds@[k as int].wf());
            self.feeds[k].first_at_or_after(t)
        } else {
            None
        }
    }

    /// Inserts `u` into the index of its feed, creating the index if needed.
    pub fn insert(&mut self, u: PriceFeedUpdate) -> (r: InsertOutcome)
        requires
            old(self).wf(),
        ensures
            final(self).wf(),
            r == insert_spec(feed_or_empty(old(self)@, u.feed_id@), u@).0,
            final(self)@ == old(self)@.insert(u.feed_id@, insert_spec(feed_or_empty(old(self)@, u.feed_id@), u@).1),
    {
        let ghost old_ids = self.ids();
        let ghost id = u.feed_id@;
        let k = self.position(&u.feed_id);
        let n = self.feeds.len();
        proof {
            lemma_find_id_facts(old_ids, id);
        }
        if k == n {
            let f = FeedIndex::new(u.feed_id);
            self.feeds.push(f);
        }
        let ghost fs0 = self.feeds@;
        let ghost ids0 = self.ids();
        proof {
            if k == n {
                assert(ids0 =~= old_ids.push(id));
            } else {
                assert(ids0 =~= old_ids);
            }
            lemma_find_id(ids0, id, k as int);
            assert(self.feeds@[k as int].wf());
        }
        let ghost before = self.feeds@[k as int]@;
        assert(before == feed_or_empty(old(self)@, id)) by {
            if k == n {
                assert(before =~= Seq::<PriceFeedUpdateView>::empty());
            }
        }
        let mut f = self.feeds.remove(k);
        let r = f.insert(u);
        self.feeds.insert(k, f);
        proof {
            assert(self.feeds@ =~= fs0.update(k as int, f));
            assert(self.ids() =~= ids0);
            assert forall|i: int| 0 <= i < self.feeds@.len() implies (#[trigger] self.feeds@[i]).wf() by {
                if i != k {
                    assert(self.feeds@[i] == fs0[i]);
                    if i < n {
                        assert(fs0[i] == old(self).feeds@[i]);
                    }
                }
            }
            let m = old(self)@.insert(id, f@);
            assert forall|y: Seq<u8>| #[trigger] self@.contains_key(y) == m.contains_key(y) && (m.contains_key(y) ==> self@[y] == m[y]) by {
                lemma_find_id_facts(old_ids, y);
                lemma_find_id_facts(ids0, y);
                if y != id {
                    let p = find_id(old_ids, y) as int;
                    if p < n {
                        lemma_find_id(ids0, y, p);
                        assert(self.feeds@[p] == old(self).feeds@[p]);
                    } else if k == n {
                        lemma_find_id(ids0, y, n + 1);
                    }
                }
            }
            assert(self@ =~= m);
        }
        r
    }
    /// Evicts, in the index of feed `id`, the updates older than `horizon`
    /// seconds before its latest one.
    pub fn evict(&mut self, id: &PriceFeedId, horizon: u64)
        requires
            old(self).wf(),
        ensures
            final(self).wf(),
            old(self)@.contains_key(id@) ==> final(self)@ == old(self)@.insert(id@, evict_spec(old(self)@[id@], horizon as int)),
            !old(self)@.contains_key(id@) ==> final(self)@ == old(self)@,
    {
        let k = self.position(id);
        if k == self.feeds.len() {
            return;
        }
        let ghost ids0 = self.ids();
        let ghost fs0 = self.feeds@;
        proof {
            lemma_find_id_facts(ids0, id@);
            assert(self.feeds@[k as int].wf());
        }
        let mut f = self.feeds.remove(k);
        f.evict(horizon);
        self.feeds.insert(k, f);
        proof {
            assert(self.feeds@ =~= fs0.update(k as int, f));
            assert(self.ids() =~= ids0);
            assert forall|i: int| 0 <= i < self.feeds@.len() implies (#[trigger] self.feeds@[i]).wf() by {
                if i != k {
                    assert(self.feeds@[i] == fs0[i]);
                }
            }
            let m = old(self)@.insert(id@, f@);
            assert forall|y: Seq<u8>| #[trigger] self@.contains_key(y) == m.contains_key(y) && (m.contains_key(y) ==> self@[y] == m[y]) by {
                lemma_find_id_facts(ids0, y);
                if y != id@ {
                    let p = find_id(ids0, y) as int;
                    if p < self.feeds@.len() {
                        assert(self.feeds@[p] == fs0[p]);
                    }
                }
            }
            assert(self@ =~= m);
        }
    }
}

} // verus!
