use vstd::prelude::*;
use crate::types::{PriceFeedId, PriceFeedUpdate, PriceFeedUpdateView, opt_update_view};
use crate::store::{InsertOutcome, PriceStore, feed_or_empty, latest_spec, first_at_or_after_spec, insert_all};
use crate::codec::{Attestation, CodecError, DecodeReport, UpdatePayload, accepted, decode_and_verify, entries_of, payload_verdicts, refused, verify_spec};
use crate::governance::{GovernanceError, GovernanceState, upgrade_spec};

verus! {

/// How a multi-feed query treats a known feed without data.
#[derive(Clone, Copy, Debug, PartialEq, Eq, Structural)]
pub enum QueryMode {
    /// The whole call fails.
    Strict,
    /// The feed is reported without an update.
    BestEffort,
}

/// Why a query has no answer.
#[derive(Clone, Copy, Debug, PartialEq, Eq, Structural)]
pub enum QueryError {
    UnknownFeedId,
    NoFreshUpdate,
    AmbiguousHistoricalResult,
    FallbackUnavailable,
}

/// Why the historical service gave no answer.
#[derive(Clone, Copy, Debug, PartialEq, Eq, Structural)]
pub enum FallbackError {
    NotFound,
    Timeout,
    Transport,
}

/// Where the records of an answer come from.
#[derive(Clone, Copy, Debug, PartialEq, Eq, Structural)]
pub enum DataOrigin {
    /// Verified locally and held in the store.
    Local,
    /// Authenticated by the historical service only.
    Benchmarks,
}

/// Updates of the requested feeds, with the binary data to submit on chain.
#[derive(Debug)]
pub struct PriceFeedsWithUpdateData {
    pub price_feeds: Vec<PriceFeedUpdate>,
    pub update_data: Vec<Vec<u8>>,
    pub origin: DataOrigin,
}

/// The historical service's answer: records and one combined binary blob.
#[derive(Debug)]
pub struct BenchmarksResponse {
    pub price_feeds: Vec<PriceFeedUpdate>,
    pub update_data: Vec<Vec<u8>>,
}

/// The next thing a first-after query needs.
#[derive(Debug)]
pub enum FirstAfterStep {
    /// The query is answered.
    Done(Result<PriceFeedsWithUpdateData, QueryError>),
    /// Some feed has no retained update at or after the time: ask the
    /// historical service for these feeds at that time.
    AskFallback,
}

pub open spec fn id_listed(ids: Seq<PriceFeedId>, id: Seq<u8>) -> bool {
    exists|i: int| 0 <= i < ids.len() && ids[i]@ == id
}

/// A feed that has been seen or that belongs to the configured universe.
pub open spec fn known_feed(m: Map<Seq<u8>, Seq<PriceFeedUpdateView>>, universe: Seq<PriceFeedId>, id: Seq<u8>) -> bool {
    m.contains_key(id) || id_listed(universe, id)
}

pub open spec fn all_known(m: Map<Seq<u8>, Seq<PriceFeedUpdateView>>, universe: Seq<PriceFeedId>, ids: Seq<PriceFeedId>) -> bool {
    forall|i: int| 0 <= i < ids.len() ==> known_feed(m, universe, ids[i]@)
}

pub open spec fn update_views(v: Seq<PriceFeedUpdate>) -> Seq<PriceFeedUpdateView> {
    v.map_values(|u: PriceFeedUpdate| u@)
}

pub open spec fn status_views(v: Seq<Option<PriceFeedUpdate>>) -> Seq<Option<PriceFeedUpdateView>> {
    v.map_values(|u: Option<PriceFeedUpdate>| opt_update_view(u))
}

/// A record whose stated previous publish time is its own publish time may not
/// be the unique first update at or after the requested time.
pub open spec fn ambiguous(u: PriceFeedUpdateView) -> bool {
    u.prev_publish_time == Some(u.price.publish_time)
}

/// Every requested feed has a retained update at or after `t`.
pub open spec fn covered_locally(m: Map<Seq<u8>, Seq<PriceFeedUpdateView>>, ids: Seq<PriceFeedId>, t: int) -> bool {
    forall|i: int| 0 <= i < ids.len() ==> first_at_or_after_spec(feed_or_empty(m, ids[i]@), t) is Some
}

pub open spec fn blob_views(v: Seq<Vec<u8>>) -> Seq<Seq<u8>> {
    v.map_values(|b: Vec<u8>| b@)
}

/// How the historical service's answer `response` decides the query's answer `r`.
pub open spec fn fallback_answer(
    ids: Seq<PriceFeedId>,
    response: Result<BenchmarksResponse, FallbackError>,
    r: Result<PriceFeedsWithUpdateData, QueryError>,
) -> bool {
    match response {
        Err(FallbackError::NotFound) => r == Err::<PriceFeedsWithUpdateData, QueryError>(QueryError::NoFreshUpdate),
        Err(_) => r == Err::<PriceFeedsWithUpdateData, QueryError>(QueryError::FallbackUnavailable),
        Ok(resp) => {
            &&& (r == Err::<PriceFeedsWithUpdateData, QueryError>(QueryError::AmbiguousHistoricalResult)
                <==> exists|i: int| 0 <= i < resp.price_feeds@.len() && ambiguous(#[trigger] resp.price_feeds@[i]@))
            &&& r is Err ==> r == Err::<PriceFeedsWithUpdateData, QueryError>(QueryError::AmbiguousHistoricalResult)
            &&& r matches Ok(d) ==> {
                &&& d.origin == DataOrigin::Benchmarks
                &&& blob_views(d.update_data@) == blob_views(resp.update_data@)
                &&& d.price_feeds@.len() == resp.price_feeds@.len()
                &&& forall|i: int| 0 <= i < d.price_feeds@.len() ==> {
                    let a = #[trigger] d.price_feeds@[i]@;
                    let b = resp.price_feeds@[i]@;
                    &&& a.feed_id == b.feed_id && a.price == b.price && a.ema_price == b.ema_price
                    &&& a.prev_publish_time == b.prev_publish_time && a.slot == b.slot
                    &&& a.raw_update_data == if ids.len() == 1 && resp.update_data@.len() > 0 {
                        Some(resp.update_data@[0]@)
                    } else {
                        b.raw_update_data
                    }
                }
            }
        },
    }
}

/// A historical answer holding an ambiguous record fails the query with
/// `AmbiguousHistoricalResult` rather than returning that record.
pub proof fn law_ambiguity_surfaced(
    ids: Seq<PriceFeedId>,
    resp: BenchmarksResponse,
    r: Result<PriceFeedsWithUpdateData, QueryError>,
    i: int,
)
    requires
        fallback_answer(ids, Ok(resp), r),
        0 <= i < resp.price_feeds@.len(),
        ambiguous(resp.price_feeds@[i]@),
    ensures
        r == Err::<PriceFeedsWithUpdateData, QueryError>(QueryError::AmbiguousHistoricalResult),
{
}

/// Whether `id` is in `ids`.
pub fn listed(ids: &Vec<PriceFeedId>, id: &PriceFeedId) -> (r: bool)
    ensures
        r == id_listed(ids@, id@),
{
    let mut i: usize = 0;
    while i < ids.len()
        invariant
            0 <= i <= ids@.len(),
            forall|j: int| 0 <= j < i ==> ids@[j]@ != id@,
        decreases ids@.len() - i,
    {
        if ids[i].same_as(id) {
            return true;
        }
        i = i + 1;
    }
    false
}

/// Checks that every requested feed is known.
fn check_known(store: &PriceStore, ids: &Vec<PriceFeedId>, universe: &Vec<PriceFeedId>) -> (r: bool)
    ensures
        r == all_known(store@, universe@, ids@),
{
    let mut i: usize = 0;
    while i < ids.len()
        invariant
            0 <= i <= ids@.len(),
            forall|j: int| 0 <= j < i ==> known_feed(store@, universe@, ids@[j]@),
        decreases ids@.len() - i,
    {
        if !store.contains(&ids[i]) && !listed(universe, &ids[i]) {
            return false;
        }
        i = i + 1;
    }
    true
}

/// The latest update of each requested feed, in the order requested.
///
/// Fails with `UnknownFeedId` when a requested feed was never seen and is not
/// in `universe`. Otherwise a feed without data fails the whole call in strict
/// mode, and is answered with `None` in best-effort mode.
pub fn get_latest(
    store: &PriceStore,
    ids: &Vec<PriceFeedId>,
    universe: &Vec<PriceFeedId>,
    mode: QueryMode,
) -> (r: Result<Vec<Option<PriceFeedUpdate>>, QueryError>)
    requires
        store.wf(),
    ensures
        r == Err::<Vec<Option<PriceFeedUpdate>>, QueryError>(QueryError::UnknownFeedId)
            <==> !all_known(store@, universe@, ids@),
        r == Err::<Vec<Option<PriceFeedUpdate>>, QueryError>(QueryError::NoFreshUpdate) <==> (
            all_known(store@, universe@, ids@) && mode == QueryMode::Strict
            && exists|i: int| 0 <= i < ids@.len() && latest_spec(feed_or_empty(store@, ids@[i]@)) is None),
        r is Err ==> r == Err::<Vec<Option<PriceFeedUpdate>>, QueryError>(QueryError::UnknownFeedId)
            || r == Err::<Vec<Option<PriceFeedUpdate>>, QueryError>(QueryError::NoFreshUpdate),
        r matches Ok(v) ==> v@.len() == ids@.len() && forall|i: int| 0 <= i < ids@.len() ==>
            opt_update_view(#[trigger] v@[i]) == latest_spec(feed_or_empty(store@, ids@[i]@)),
{
    if !check_known(store, ids, universe) {
        return Err(QueryError::UnknownFeedId);
    }
    let mut out: Vec<Option<PriceFeedUpdate>> = Vec::new();
    let mut i: usize = 0;
    while i < ids.len()
        invariant
            store.wf(),
            all_known(store@, universe@, ids@),
            0 <= i <= ids@.len(),
            out@.len() == i,
            forall|j: int| 0 <= j < i ==> opt_update_view(#[trigger] out@[j]) == latest_spec(feed_or_empty(store@, ids@[j]@)),
            mode == QueryMode::Strict ==> forall|j: int| 0 <= j < i ==> latest_spec(feed_or_empty(store@, ids@[j]@)) is Some,
        decreases ids@.len() - i,
    {
        let u = store.latest(&ids[i]);
        if u.is_none() && mode == QueryMode::Strict {
            assert(latest_spec(feed_or_empty(store@, ids@[i as int]@)) is None);
            return Err(QueryError::NoFreshUpdate);
        }
        out.push(u);
        i = i + 1;
    }
    Ok(out)
}

/// Answers a first-after query from the store alone, if it can.
fn first_after_local(store: &PriceStore, ids: &Vec<PriceFeedId>, t: i64) -> (r: Option<Vec<PriceFeedUpdate>>)
    requires
        store.wf(),
    ensures
        r is Some <==> covered_locally(store@, ids@, t as int),
        r matches Some(v) ==> v@.len() == ids@.len() && forall|i: int| 0 <= i < ids@.len() ==>
            first_at_or_after_spec(feed_or_empty(store@, ids@[i]@), t as int) == Some(#[trigger] v@[i]@),
{
    let mut out: Vec<PriceFeedUpdate> = Vec::new();
    let mut i: usize = 0;
    while i < ids.len()
        invariant
            store.wf(),
            0 <= i <= ids@.len(),
            out@.len() == i,
            forall|j: int| 0 <= j < i ==> first_at_or_after_spec(feed_or_empty(store@, ids@[j]@), t as int) == Some(#[trigger] out@[j]@),
        decreases ids@.len() - i,
    {
        match store.first_at_or_after(&ids[i], t) {
            Some(u) => {
                out.push(u);
            },
            None => {
                assert(first_at_or_after_spec(feed_or_empty(store@, ids@[i as int]@), t as int) is None);
                return None;
            },
        }
        i = i + 1;
    }
    assert forall|j: int| 0 <= j < ids@.len() implies first_at_or_after_spec(feed_or_empty(store@, ids@[j]@), t as int) is Some by {
        assert(first_at_or_after_spec(feed_or_empty(store@, ids@[j]@), t as int) == Some(out@[j]@));
    }
    Some(out)
}

/// Turns the historical service's answer into the query's answer.
///
/// Any record that is ambiguous fails the query with `AmbiguousHistoricalResult`.
/// When a single feed was requested, the combined blob is that feed's update
/// data and is attached to its record.
pub fn resolve_fallback(
    ids: &Vec<PriceFeedId>,
    response: Result<BenchmarksResponse, FallbackError>,
) -> (r: Result<PriceFeedsWithUpdateData, QueryError>)
    ensures
        fallback_answer(ids@, response, r),
{
    match response {
        Err(FallbackError::NotFound) => Err(QueryError::NoFreshUpdate),
        Err(_) => Err(QueryError::FallbackUnavailable),
        Ok(resp) => {
            let BenchmarksResponse { price_feeds, update_data } = resp;
            let ghost given = price_feeds@;
            assert(given == response->Ok_0.price_feeds@);
            let mut out: Vec<PriceFeedUpdate> = Vec::new();
            let mut i: usize = 0;
            while i < price_feeds.len()
                invariant
                    0 <= i <= price_feeds@.len(),
                    price_feeds@ == given,
                    response is Ok,
                    given == response->Ok_0.price_feeds@,
                    update_data == response->Ok_0.update_data,
                    out@.len() == i,
                    forall|j: int| 0 <= j < i ==> !ambiguous(#[trigger] given[j]@),
                    forall|j: int| 0 <= j < i ==> {
                        let a = #[trigger] out@[j]@;
                        let b = given[j]@;
                        &&& a.feed_id == b.feed_id && a.price == b.price && a.ema_price == b.ema_price
                        &&& a.prev_publish_time == b.prev_publish_time && a.slot == b.slot
                        &&& a.raw_update_data == if ids@.len() == 1 && update_data@.len() > 0 {
                            Some(update_data@[0]@)
                        } else {
                            b.raw_update_data
                        }
                    },
                decreases price_feeds@.len() - i,
            {
                let p = &price_feeds[i];
                if let Some(prev) = p.prev_publish_time {
                    if prev == p.price.publish_time {
                        assert(ambiguous(response->Ok_0.price_feeds@[i as int]@));
                        return Err(QueryError::AmbiguousHistoricalResult);
                    }
                }
                let mut u = p.duplicate();
                if ids.len() == 1 && update_data.len() > 0 {
                    u.raw_update_data = Some(crate::types::copy_bytes(&update_data[0]));
                }
                out.push(u);
                i = i + 1;
            }
            Ok(PriceFeedsWithUpdateData { price_feeds: out, update_data, origin: DataOrigin::Benchmarks })
        },
    }
}

/// One step of a first-after query: the first update at or after `t` of each
/// requested feed.
///
/// With every feed covered by the store, the store answers. Otherwise, without a
/// fallback answer yet, the step asks for one; with one, that answer decides.
pub fn get_first_after(
    store: &PriceStore,
    ids: &Vec<PriceFeedId>,
    t: i64,
    universe: &Vec<PriceFeedId>,
    fallback: Option<Result<BenchmarksResponse, FallbackError>>,
) -> (r: FirstAfterStep)
    requires
        store.wf(),
    ensures
        !all_known(store@, universe@, ids@) ==> r == FirstAfterStep::Done(Err(QueryError::UnknownFeedId)),
        all_known(store@, universe@, ids@) && covered_locally(store@, ids@, t as int) ==> match r {
            FirstAfterStep::Done(Ok(d)) => {
                &&& d.origin == DataOrigin::Local
                &&& d.price_feeds@.len() == ids@.len()
                &&& d.update_data@.len() == 0
                &&& forall|i: int| 0 <= i < ids@.len() ==>
                    first_at_or_after_spec(feed_or_empty(store@, ids@[i]@), t as int) == Some(#[trigger] d.price_feeds@[i]@)
            },
            _ => false,
        },
        all_known(store@, universe@, ids@) && !covered_locally(store@, ids@, t as int) ==> match fallback {
            None => r == FirstAfterStep::AskFallback,
            Some(resp) => match r {
                FirstAfterStep::Done(res) => fallback_answer(ids@, resp, res),
                _ => false,
            },
        },
{
    if !check_known(store, ids, universe) {
        return FirstAfterStep::Done(Err(QueryError::UnknownFeedId));
    }
    match first_after_local(store, ids, t) {
        Some(v) => FirstAfterStep::Done(Ok(PriceFeedsWithUpdateData {
            price_feeds: v,
            update_data: Vec::new(),
            origin: DataOrigin::Local,
        })),
        None => match fallback {
            None => FirstAfterStep::AskFallback,
            Some(resp) => FirstAfterStep::Done(resolve_fallback(ids, resp)),
        },
    }
}

/// What ingesting a message did: the outcome of inserting each accepted update,
/// in order, and each refused entry with the reason.
#[derive(Debug)]
pub struct IngestReport {
    pub outcomes: Vec<InsertOutcome>,
    pub errors: Vec<(usize, CodecError)>,
}

/// Verifies a message and inserts each accepted update into its feed's index.
///
/// A message refused as a whole changes nothing; otherwise every accepted
/// update is inserted, whatever happens to the other entries.
pub fn ingest(
    store: &mut PriceStore,
    att: Attestation,
    gov: &mut GovernanceState,
    signed: &Vec<bool>,
    proofs_ok: &Vec<bool>,
) -> (r: Result<IngestReport, CodecError>)
    requires
        old(store).wf(),
    ensures
        final(store).wf(),
        match verify_spec(att, *old(gov), signed@, proofs_ok@) {
            Err(e) => r == Err::<IngestReport, CodecError>(e) && final(store)@ == old(store)@ && *final(gov) == *old(gov),
            Ok(()) => {
                let ups = accepted(entries_of(att.payload), payload_verdicts(att.payload, proofs_ok@));
                &&& r matches Ok(rep) && {
                    &&& rep.outcomes@ == insert_all(old(store)@, ups).0
                    &&& rep.errors@ == refused(entries_of(att.payload).len(), payload_verdicts(att.payload, proofs_ok@))
                }
                &&& final(store)@ == insert_all(old(store)@, ups).1
                &&& match att.payload {
                    UpdatePayload::Governance(seq, action) => Ok::<GovernanceState, GovernanceError>(*final(gov))
                        == upgrade_spec(*old(gov), att.emitter@, seq, action),
                    _ => *final(gov) == *old(gov),
                }
            },
        },
{
    let ghost a = att;
    let ghost m0 = store@;
    let rep = match decode_and_verify(att, gov, signed, proofs_ok) {
        Ok(rep) => rep,
        Err(e) => {
            return Err(e);
        },
    };
    let DecodeReport { updates, errors } = rep;
    let ghost ups = updates@.map_values(|u: PriceFeedUpdate| u@);
    let mut outcomes: Vec<InsertOutcome> = Vec::new();
    let mut i: usize = 0;
    while i < updates.len()
        invariant
            store.wf(),
            0 <= i <= updates@.len(),
            ups == updates@.map_values(|u: PriceFeedUpdate| u@),
            outcomes@ == insert_all(m0, ups.subrange(0, i as int)).0,
            store@ == insert_all(m0, ups.subrange(0, i as int)).1,
        decreases updates@.len() - i,
    {
        assert(ups.subrange(0, i + 1).drop_last() =~= ups.subrange(0, i as int));
        assert(ups[i as int] == updates@[i as int]@);
        let o = store.insert(updates[i].duplicate());
        outcomes.push(o);
        i = i + 1;
    }
    assert(ups.subrange(0, i as int) =~= ups);
    Ok(IngestReport { outcomes, errors })
}

} // verus!
