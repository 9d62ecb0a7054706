use vstd::prelude::*;
use crate::types::{PriceFeedId, PriceFeedUpdate, PriceFeedUpdateView, PriceUpdate, UnixTimestamp, copy_bytes};
use crate::store::{PriceStore, feed_or_empty, first_at_or_after_spec};
use crate::engine::{
    BenchmarksResponse, FallbackError, FirstAfterStep, QueryError, PriceFeedsWithUpdateData,
    all_known, covered_locally, fallback_answer, get_first_after, ambiguous,
};

verus! {

/// Parameters of a request for the first update of one feed at or after a time.
#[derive(Clone, Copy, Debug)]
pub struct GetPriceFeedQueryParams {
    /// The feed to get an update for.
    pub id: PriceFeedId,
    /// The answer is the first update whose publish time is at least this.
    pub publish_time: UnixTimestamp,
    /// Include the slot and previous publish time in the answer.
    pub verbose: bool,
    /// Include the binary update data, submittable on chain, in the answer.
    pub binary: bool,
}

impl GetPriceFeedQueryParams {
    pub fn new(id: PriceFeedId, publish_time: UnixTimestamp, verbose: bool, binary: bool) -> (r: GetPriceFeedQueryParams)
        ensures
            r.id == id,
            r.publish_time == publish_time,
            r.verbose == verbose,
            r.binary == binary,
    {
        GetPriceFeedQueryParams { id, publish_time, verbose, binary }
    }
}

/// Why a price-feed request fails.
#[derive(Clone, Copy, Debug, PartialEq, Eq, Structural)]
pub enum RestError {
    /// The requested feed is not known.
    PriceIdsNotFound,
    /// No update could be found for the request.
    UpdateDataNotFound,
    /// The historical answer may not be the unique first update at or after the time.
    BenchmarkPriceNotUnique,
}

/// Extra detail of an answer, on request.
#[derive(Clone, Copy, Debug, PartialEq, Eq, Structural)]
pub struct RpcPriceFeedMetadata {
    pub slot: u64,
    pub prev_publish_time: Option<UnixTimestamp>,
}

/// A feed's update as an API answer.
#[derive(Debug)]
pub struct RpcPriceFeed {
    pub id: PriceFeedId,
    pub price: PriceUpdate,
    pub ema_price: PriceUpdate,
    pub metadata: Option<RpcPriceFeedMetadata>,
    pub vaa: Option<Vec<u8>>,
}

/// The answer built from `u`, with its metadata when `verbose` and its
/// update data when `binary`.
pub open spec fn rpc_matches(r: RpcPriceFeed, u: PriceFeedUpdateView, verbose: bool, binary: bool) -> bool {
    &&& r.id@ == u.feed_id
    &&& r.price == u.price
    &&& r.ema_price == u.ema_price
    &&& r.metadata == if verbose {
        Some(RpcPriceFeedMetadata { slot: u.slot, prev_publish_time: u.prev_publish_time })
    } else {
        None::<RpcPriceFeedMetadata>
    }
    &&& crate::types::bytes_view(r.vaa) == if binary { u.raw_update_data } else { None::<Seq<u8>> }
}

impl RpcPriceFeed {
    pub fn from_price_feed_update(u: PriceFeedUpdate, verbose: bool, binary: bool) -> (r: RpcPriceFeed)
        ensures
            rpc_matches(r, u@, verbose, binary),
    {
        let metadata = if verbose {
            Some(RpcPriceFeedMetadata { slot: u.slot, prev_publish_time: u.prev_publish_time })
        } else {
            None
        };
        let vaa = if binary { u.raw_update_data } else { None };
        RpcPriceFeed { id: u.feed_id, price: u.price, ema_price: u.ema_price, metadata, vaa }
    }
}

/// The next thing a price-feed request needs.
#[derive(Debug)]
pub enum PriceFeedStep {
    /// The request is answered.
    Respond(Result<RpcPriceFeed, RestError>),
    /// The store cannot answer: ask the historical service for the feed at the time.
    AskBenchmarks,
}

/// The API answer for a query answer `data` of a single feed.
pub open spec fn rest_answer(data: Result<PriceFeedsWithUpdateData, QueryError>, params: GetPriceFeedQueryParams, r: Result<RpcPriceFeed, RestError>) -> bool {
    match data {
        Err(QueryError::AmbiguousHistoricalResult) => r == Err::<RpcPriceFeed, RestError>(RestError::BenchmarkPriceNotUnique),
        Err(_) => r == Err::<RpcPriceFeed, RestError>(RestError::UpdateDataNotFound),
        Ok(d) => if d.price_feeds@.len() == 0 {
            r == Err::<RpcPriceFeed, RestError>(RestError::UpdateDataNotFound)
        } else if ambiguous(d.price_feeds@[0]@) {
            r == Err::<RpcPriceFeed, RestError>(RestError::BenchmarkPriceNotUnique)
        } else {
            let u = d.price_feeds@[0]@;
            let with_data = PriceFeedUpdateView {
                raw_update_data: if d.update_data@.len() > 0 { Some(d.update_data@[0]@) } else { u.raw_update_data },
                ..u
            };
            r matches Ok(f) && rpc_matches(f, with_data, params.verbose, params.binary)
        },
    }
}

/// Builds the API answer from the answer of a first-after query for one feed.
pub fn answer_from_query(params: &GetPriceFeedQueryParams, data: Result<PriceFeedsWithUpdateData, QueryError>) -> (r: Result<RpcPriceFeed, RestError>)
    ensures
        rest_answer(data, *params, r),
{
    match data {
        Err(QueryError::AmbiguousHistoricalResult) => Err(RestError::BenchmarkPriceNotUnique),
        Err(_) => Err(RestError::UpdateDataNotFound),
        Ok(d) => {
            let PriceFeedsWithUpdateData { price_feeds, update_data, origin: _ } = d;
            if price_feeds.len() == 0 {
                return Err(RestError::UpdateDataNotFound);
            }
            let mut price_feed = price_feeds[0].duplicate();
            if let Some(prev_publish_time) = price_feed.prev_publish_time {
                if prev_publish_time == price_feed.price.publish_time {
                    return Err(RestError::BenchmarkPriceNotUnique);
                }
            }
            if update_data.len() > 0 {
                price_feed.raw_update_data = Some(copy_bytes(&update_data[0]));
            }
            Ok(RpcPriceFeed::from_price_feed_update(price_feed, params.verbose, params.binary))
        },
    }
}

/// One step of a request for the first update of one feed at or after a time.
///
/// An unknown feed is refused. Otherwise the store answers when it holds an
/// update at or after the time; if not, the historical service is asked, and
/// its answer `benchmarks` decides.
pub fn get_price_feed(
    store: &PriceStore,
    params: &GetPriceFeedQueryParams,
    universe: &Vec<PriceFeedId>,
    benchmarks: Option<Result<BenchmarksResponse, FallbackError>>,
) -> (r: PriceFeedStep)
    requires
        store.wf(),
    ensures
        !all_known(store@, universe@, seq![params.id]) ==> r == PriceFeedStep::Respond(Err(RestError::PriceIdsNotFound)),
        all_known(store@, universe@, seq![params.id]) && covered_locally(store@, seq![params.id], params.publish_time as int) ==> match r {
            PriceFeedStep::Respond(res) => exists|d: PriceFeedsWithUpdateData| {
                &&& d.price_feeds@.len() == 1 && d.update_data@.len() == 0
                &&& first_at_or_after_spec(feed_or_empty(store@, params.id@), params.publish_time as int) == Some(#[trigger] d.price_feeds@[0]@)
                &&& rest_answer(Ok(d), *params, res)
            },
            _ => false,
        },
        all_known(store@, universe@, seq![params.id]) && !covered_locally(store@, seq![params.id], params.publish_time as int) ==> match benchmarks {
            None => r == PriceFeedStep::AskBenchmarks,
            Some(resp) => match r {
                PriceFeedStep::Respond(res) => exists|q: Result<PriceFeedsWithUpdateData, QueryError>|
                    fallback_answer(seq![params.id], resp, q) && #[trigger] rest_answer(q, *params, res),
                _ => false,
            },
        },
{
    let ids = vec![params.id];
    assert(ids@ =~= seq![params.id]);
    match get_first_after(store, &ids, params.publish_time, universe, benchmarks) {
        FirstAfterStep::AskFallback => PriceFeedStep::AskBenchmarks,
        FirstAfterStep::Done(Err(QueryError::UnknownFeedId)) => PriceFeedStep::Respond(Err(RestError::PriceIdsNotFound)),
        FirstAfterStep::Done(data) => PriceFeedStep::Respond(answer_from_query(params, data)),
    }
}

} // verus!
