use vstd::prelude::*;

verus! {

/// Seconds since the Unix epoch.
pub type UnixTimestamp = i64;

/// Opaque 32-byte identifier of a price feed.
#[derive(Clone, Copy, Debug)]
pub struct PriceFeedId {
    pub bytes: [u8; 32],
}

impl View for PriceFeedId {
    type V = Seq<u8>;

    open spec fn view(&self) -> Seq<u8> {
        self.bytes@
    }
}

impl PriceFeedId {
    pub fn new(bytes: [u8; 32]) -> (r: PriceFeedId)
        ensures
            r.bytes == bytes,
    {
        PriceFeedId { bytes }
    }

    /// Byte-wise comparison of two identifiers.
    pub fn same_as(&self, other: &PriceFeedId) -> (r: bool)
        ensures
            r == (self@ == other@),
    {
        bytes32_eq(&self.bytes, &other.bytes)
    }
}

/// Byte-wise comparison of two 32-byte arrays.
pub fn bytes32_eq(a: &[u8; 32], b: &[u8; 32]) -> (r: bool)
    ensures
        r == (a@ == b@),
{
    let mut i: usize = 0;
    while i < 32
        invariant
            0 <= i <= 32,
            a@.len() == 32,
            b@.len() == 32,
            forall|j: int| 0 <= j < i ==> a@[j] == b@[j],
        decreases 32 - i,
    {
        if a[i] != b[i] {
            assert(a@[i as int] != b@[i as int]);
            return false;
        }
        i = i + 1;
    }
    assert(a@ =~= b@);
    true
}

/// One observation of one feed; the value is `price * 10^expo`.
#[derive(Clone, Copy, Debug, PartialEq, Eq, Structural)]
pub struct PriceUpdate {
    pub price: i64,
    pub conf: u64,
    pub expo: i32,
    pub publish_time: UnixTimestamp,
}

/// A verified update of one feed: the price and its moving average.
#[derive(Debug)]
pub struct PriceFeedUpdate {
    pub feed_id: PriceFeedId,
    pub price: PriceUpdate,
    pub ema_price: PriceUpdate,
    pub prev_publish_time: Option<UnixTimestamp>,
    pub raw_update_data: Option<Vec<u8>>,
    pub slot: u64,
}

/// The mathematical value of a `PriceFeedUpdate`.
pub struct PriceFeedUpdateView {
    pub feed_id: Seq<u8>,
    pub price: PriceUpdate,
    pub ema_price: PriceUpdate,
    pub prev_publish_time: Option<UnixTimestamp>,
    pub raw_update_data: Option<Seq<u8>>,
    pub slot: u64,
}

pub open spec fn bytes_view(b: Option<Vec<u8>>) -> Option<Seq<u8>> {
    match b {
        Some(v) => Some(v@),
        None => None,
    }
}

impl View for PriceFeedUpdate {
    type V = PriceFeedUpdateView;

    open spec fn view(&self) -> PriceFeedUpdateView {
        PriceFeedUpdateView {
            feed_id: self.feed_id@,
            price: self.price,
            ema_price: self.ema_price,
            prev_publish_time: self.prev_publish_time,
            raw_update_data: bytes_view(self.raw_update_data),
            slot: self.slot,
        }
    }
}

impl PriceFeedUpdateView {
    pub open spec fn publish_time(self) -> int {
        self.price.publish_time as int
    }

    /// Two updates carry the same observation.
    pub open spec fn same_content(self, other: PriceFeedUpdateView) -> bool {
        self.price == other.price && self.ema_price == other.ema_price
    }
}

pub open spec fn opt_update_view(r: Option<PriceFeedUpdate>) -> Option<PriceFeedUpdateView> {
    match r {
        Some(u) => Some(u@),
        None => None,
    }
}

/// A copy of a byte buffer.
pub fn copy_bytes(b: &Vec<u8>) -> (r: Vec<u8>)
    ensures
        r@ == b@,
{
    let mut r: Vec<u8> = Vec::with_capacity(b.len());
    let mut i: usize = 0;
    while i < b.len()
        invariant
            0 <= i <= b@.len(),
            r@ == b@.subrange(0, i as int),
        decreases b@.len() - i,
    {
        r.push(b[i]);
        i = i + 1;
    }
    assert(r@ =~= b@);
    r
}

impl PriceFeedUpdate {
    pub fn new(
        feed_id: PriceFeedId,
        price: PriceUpdate,
        ema_price: PriceUpdate,
        prev_publish_time: Option<UnixTimestamp>,
        raw_update_data: Option<Vec<u8>>,
        slot: u64,
    ) -> (r: PriceFeedUpdate)
        ensures
            r.feed_id == feed_id,
            r.price == price,
            r.ema_price == ema_price,
            r.prev_publish_time == prev_publish_time,
            r.raw_update_data == raw_update_data,
            r.slot == slot,
    {
        PriceFeedUpdate { feed_id, price, ema_price, prev_publish_time, raw_update_data, slot }
    }

    /// An independent copy with the same value.
    pub fn duplicate(&self) -> (r: PriceFeedUpdate)
        ensures
            r@ == self@,
    {
        let raw = match &self.raw_update_data {
            Some(b) => Some(copy_bytes(b)),
            None => None,
        };
        PriceFeedUpdate {
            feed_id: self.feed_id,
            price: self.price,
            ema_price: self.ema_price,
            prev_publish_time: self.prev_publish_time,
            raw_update_data: raw,
            slot: self.slot,
        }
    }

    /// Whether two updates carry the same observation.
    pub fn same_content(&self, other: &PriceFeedUpdate) -> (r: bool)
        ensures
            r == self@.same_content(other@),
    {
        self.price == other.price && self.ema_price == other.ema_price
    }
}

} // verus!
