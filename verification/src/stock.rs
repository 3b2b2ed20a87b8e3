//! Quote derivation: pure functions that turn a fetched price series and
//! snapshot fields into the metrics a presentation layer displays.
//!
//! Prices are fixed-point integers in an arbitrary unit fixed by the caller
//! (for example ten-thousandths of a dollar). A `high`, `low` or `close` of
//! zero means "no trade in this bucket", not a real price of zero.

use vstd::prelude::*;
use vstd::arithmetic::mul::lemma_mul_inequality;

verus! {

/// One time-bucketed OHLC sample of a price series. A zero field means the
/// bucket carried no data.
#[derive(Clone, Copy, Debug, PartialEq, Eq, Structural)]
pub struct PriceSample {
    /// Epoch seconds of the bucket.
    pub timestamp: u64,
    pub open: u64,
    pub high: u64,
    pub low: u64,
    pub close: u64,
}

/// The time frame a series was fetched over. Chosen once per fetch and
/// attached to the resulting [`Stock`] as a read-only tag.
#[derive(Clone, Copy, Debug, PartialEq, Eq, Structural)]
pub enum TimeFrame {
    Day1,
    Week1,
}

/// Scale of the percent-change result: a change of one whole (that is,
/// +100%) is returned as `PCT_SCALE`.
pub const PCT_SCALE: u64 = 1_000_000;

impl TimeFrame {
    /// The sampling interval the quote provider should be asked for.
    pub open spec fn spec_api_interval(self) -> Seq<char> {
        match self {
            TimeFrame::Day1 => "5m"@,
            TimeFrame::Week1 => "1h"@,
        }
    }

    /// The lookback range the quote provider should be asked for.
    pub open spec fn spec_as_range(self) -> Seq<char> {
        match self {
            TimeFrame::Day1 => "1d"@,
            TimeFrame::Week1 => "5d"@,
        }
    }

    pub fn api_interval(&self) -> (r: &'static str)
        ensures
            r@ == self.spec_api_interval(),
    {
        match self {
            TimeFrame::Day1 => "5m",
            TimeFrame::Week1 => "1h",
        }
    }

    pub fn as_range(&self) -> (r: &'static str)
        ensures
            r@ == self.spec_as_range(),
    {
        match self {
            TimeFrame::Day1 => "1d",
            TimeFrame::Week1 => "5d",
        }
    }
}

/// How the current price of a quote is resolved, as a spec-level value:
/// a post-market price, when one is present, is authoritative; otherwise
/// the regular market price is the baseline.
pub open spec fn spec_current_price(regular_price: u64, post_price: Option<u64>) -> u64 {
    match post_price {
        Some(p) => p,
        None => regular_price,
    }
}

/// Resolves the current price of a quote: the post-market price when the
/// provider supplied one, else the regular market price.
pub fn get_current_price(current_regular_price: u64, current_post_price: Option<u64>) -> (r: u64)
    ensures
        r == spec_current_price(current_regular_price, current_post_price),
{
    match current_post_price {
        Some(p) => p,
        None => current_regular_price,
    }
}

/// The samples of `s` whose `low` is real data, that is, not zero.
pub open spec fn nonzero_lows(s: Seq<PriceSample>) -> Seq<PriceSample> {
    s.filter(|p: PriceSample| p.low != 0)
}

/// Discards every sample whose `low` is exactly zero; such a bucket carried
/// no trade and its `low` is no real price floor.
pub fn remove_zeros_lows(prices: Vec<PriceSample>) -> (r: Vec<PriceSample>)
    ensures
        r@ == nonzero_lows(prices@),
{
    let ghost s = prices@;
    let n = prices.len();
    let mut out: Vec<PriceSample> = Vec::new();
    let mut i: usize = 0;
    proof {
        reveal(Seq::filter);
        assert(s.take(0) =~= Seq::<PriceSample>::empty());
    }
    while i < n
        invariant
            i <= n,
            n == s.len(),
            prices@ == s,
            out@ == nonzero_lows(s.take(i as int)),
        decreases n - i,
    {
        proof {
            reveal(Seq::filter);
            assert(s.take(i + 1).drop_last() =~= s.take(i as int));
            assert(s.take(i + 1).last() == s[i as int]);
        }
        let p = prices[i];
        if p.low != 0 {
            out.push(p);
        }
        i += 1;
    }
    proof {
        assert(s.take(n as int) =~= s);
    }
    out
}

/// The maximum `high` over the series, and zero for an empty series.
pub open spec fn spec_max_high(s: Seq<PriceSample>) -> int
    decreases s.len(),
{
    if s.len() == 0 {
        0
    } else {
        let rest = spec_max_high(s.drop_last());
        if s.last().high as int >= rest {
            s.last().high as int
        } else {
            rest
        }
    }
}

/// The minimum `low` over the samples whose `low` is not zero, and zero
/// when no sample has one.
pub open spec fn spec_min_pos_low(s: Seq<PriceSample>) -> int
    decreases s.len(),
{
    if s.len() == 0 {
        0
    } else {
        let rest = spec_min_pos_low(s.drop_last());
        let x = s.last().low;
        if x == 0 {
            rest
        } else if rest == 0 {
            x as int
        } else if x as int <= rest {
            x as int
        } else {
            rest
        }
    }
}

/// The low bound looks only at the samples that [`remove_zeros_lows`]
/// keeps: discarding the zero-low buckets first changes nothing.
pub proof fn lemma_low_ignores_discarded_samples(s: Seq<PriceSample>)
    ensures
        spec_min_pos_low(nonzero_lows(s)) == spec_min_pos_low(s),
    decreases s.len(),
{
    reveal(Seq::filter);
    if s.len() == 0 {
        assert(nonzero_lows(s) =~= s);
    } else {
        let pre = s.drop_last();
        lemma_low_ignores_discarded_samples(pre);
        if s.last().low != 0 {
            assert(nonzero_lows(s) == nonzero_lows(pre).push(s.last()));
            assert(nonzero_lows(s).drop_last() =~= nonzero_lows(pre));
            assert(nonzero_lows(s).last() == s.last());
        } else {
            assert(nonzero_lows(s) == nonzero_lows(pre));
        }
    }
}

/// The high bound of the displayed range: the series high, widened up to
/// the current price when that is strictly greater.
pub open spec fn spec_adjusted_high(current: u64, s: Seq<PriceSample>) -> int {
    if current as int > spec_max_high(s) {
        current as int
    } else {
        spec_max_high(s)
    }
}

/// The low bound of the displayed range: the series low, widened down to
/// the current price when that is less than or equal to it.
pub open spec fn spec_adjusted_low(current: u64, s: Seq<PriceSample>) -> int {
    if current as int <= spec_min_pos_low(s) {
        current as int
    } else {
        spec_min_pos_low(s)
    }
}

/// `spec_max_high` is a true maximum: no sample's `high` exceeds it, and a
/// non-empty series attains it.
proof fn lemma_max_high(s: Seq<PriceSample>)
    ensures
        0 <= spec_max_high(s),
        s.len() == 0 ==> spec_max_high(s) == 0,
        forall|k: int| 0 <= k < s.len() ==> s[k].high as int <= spec_max_high(s),
        s.len() > 0 ==> exists|k: int|
            0 <= k < s.len() && s[k].high as int == spec_max_high(s),
    decreases s.len(),
{
    if s.len() > 0 {
        let pre = s.drop_last();
        lemma_max_high(pre);
        assert(forall|k: int| 0 <= k < pre.len() ==> s[k] == pre[k]);
        if s.last().high as int >= spec_max_high(pre) {
            assert(s[s.len() - 1].high as int == spec_max_high(s));
        } else {
            let k = choose|k: int| 0 <= k < pre.len() && pre[k].high as int == spec_max_high(pre);
            assert(s[k].high as int == spec_max_high(s));
        }
    }
}

/// `spec_min_pos_low` is a true minimum over the real (non-zero) lows: it
/// is zero exactly when the series has none, and otherwise it is attained
/// by one of them and exceeded by none.
proof fn lemma_min_pos_low(s: Seq<PriceSample>)
    ensures
        0 <= spec_min_pos_low(s),
        (spec_min_pos_low(s) == 0 <==> forall|k: int| 0 <= k < s.len() ==> s[k].low == 0),
        forall|k: int| 0 <= k < s.len() && s[k].low != 0 ==> spec_min_pos_low(s) <= s[k].low as int,
        spec_min_pos_low(s) != 0 ==> exists|k: int|
            0 <= k < s.len() && s[k].low != 0 && s[k].low as int == spec_min_pos_low(s),
    decreases s.len(),
{
    if s.len() > 0 {
        let pre = s.drop_last();
        lemma_min_pos_low(pre);
        assert(forall|k: int| 0 <= k < pre.len() ==> s[k] == pre[k]);
        let x = s.last().low;
        if x != 0 && !(spec_min_pos_low(pre) != 0 && spec_min_pos_low(pre) < x as int) {
            assert(s[s.len() - 1].low as int == spec_min_pos_low(s));
        } else if spec_min_pos_low(s) != 0 {
            let k = choose|k: int|
                0 <= k < pre.len() && pre[k].low != 0 && pre[k].low as int == spec_min_pos_low(pre);
            assert(s[k].low as int == spec_min_pos_low(s));
        }
    }
}

/// Whether any sample of the series has a strictly positive close, the
/// least the series must offer before a percent change is meaningful.
pub open spec fn has_pos_close(s: Seq<PriceSample>) -> bool {
    exists|k: int| 0 <= k < s.len() && s[k].close > 0
}

/// Tells whether any sample of the series closed strictly positive: the
/// condition under which [`pct_change`] has a baseline to measure against.
pub fn has_positive_close(data: &Vec<PriceSample>) -> (r: bool)
    ensures
        r == has_pos_close(data@),
{
    let n = data.len();
    let mut i: usize = 0;
    while i < n
        invariant
            i <= n,
            n == data@.len(),
            forall|k: int| 0 <= k < i ==> data@[k].close == 0,
        decreases n - i,
    {
        if data[i].close > 0 {
            return true;
        }
        i += 1;
    }
    false
}

/// The close of the first sample with a strictly positive close, and zero
/// when the series has none.
pub open spec fn spec_first_pos_close(s: Seq<PriceSample>) -> int
    decreases s.len(),
{
    if s.len() == 0 {
        0
    } else {
        let pre = spec_first_pos_close(s.drop_last());
        if pre != 0 {
            pre
        } else if s.last().close > 0 {
            s.last().close as int
        } else {
            0
        }
    }
}

/// `spec_first_pos_close` is zero exactly when no sample closed positive,
/// and otherwise it is the close of the earliest sample that did.
pub proof fn lemma_first_pos_close(s: Seq<PriceSample>)
    ensures
        0 <= spec_first_pos_close(s),
        (spec_first_pos_close(s) == 0 <==> !has_pos_close(s)),
        has_pos_close(s) ==> exists|k: int|
            0 <= k < s.len() && s[k].close as int == spec_first_pos_close(s)
                && (forall|m: int| 0 <= m < k ==> s[m].close == 0),
    decreases s.len(),
{
    if s.len() > 0 {
        let pre = s.drop_last();
        lemma_first_pos_close(pre);
        assert(forall|k: int| 0 <= k < pre.len() ==> s[k] == pre[k]);
        if spec_first_pos_close(pre) != 0 {
            let k = choose|k: int|
                0 <= k < pre.len() && pre[k].close as int == spec_first_pos_close(pre)
                    && (forall|m: int| 0 <= m < k ==> pre[m].close == 0);
            assert(s[k].close as int == spec_first_pos_close(s));
            assert(forall|m: int| 0 <= m < k ==> s[m].close == 0);
        } else if s.last().close > 0 {
            let k = s.len() - 1;
            assert(s[k].close as int == spec_first_pos_close(s));
            assert(forall|m: int| 0 <= m < k ==> s[m].close == 0);
        } else {
            assert(forall|k: int| 0 <= k < s.len() ==> s[k].close == 0);
        }
    }
}

/// The baseline a percent change is measured against: for the daily frame
/// a supplied previous close wins; otherwise the first strictly positive
/// close of the series.
pub open spec fn spec_baseline(
    time_frame: TimeFrame,
    prev_close_price: Option<u64>,
    s: Seq<PriceSample>,
) -> int {
    match prev_close_price {
        Some(p) => if time_frame == TimeFrame::Day1 {
            p as int
        } else {
            spec_first_pos_close(s)
        },
        None => spec_first_pos_close(s),
    }
}

/// The fractional percent change, scaled by [`PCT_SCALE`] and rounded
/// toward zero: `current / baseline - 1`, or zero when no sample of the
/// series closed positive.
pub open spec fn spec_pct_change(
    current: u64,
    time_frame: TimeFrame,
    prev_close_price: Option<u64>,
    s: Seq<PriceSample>,
) -> int {
    if !has_pos_close(s) {
        0
    } else {
        (current as int) * (PCT_SCALE as int) / spec_baseline(time_frame, prev_close_price, s)
            - PCT_SCALE as int
    }
}

/// A series without a single positive close yields a percent change of
/// zero, whatever the current price, the frame and the previous close.
pub proof fn lemma_pct_change_no_positive_close(
    current: u64,
    time_frame: TimeFrame,
    prev_close_price: Option<u64>,
    s: Seq<PriceSample>,
)
    requires
        !has_pos_close(s),
    ensures
        spec_pct_change(current, time_frame, prev_close_price, s) == 0,
{
}

/// Computes the percent change of the current price against its baseline,
/// scaled by [`PCT_SCALE`]: `0` means unchanged, `PCT_SCALE / 10` a rise
/// of ten percent. Returns zero when no sample of the series closed
/// positive, an explicit insufficient-data policy rather than an error.
pub fn pct_change(
    current_price: u64,
    time_frame: TimeFrame,
    prev_close_price: Option<u64>,
    data: &Vec<PriceSample>,
) -> (r: i128)
    requires
        time_frame == TimeFrame::Day1 && has_pos_close(data@) ==> (prev_close_price matches Some(
            p,
        ) ==> p > 0),
    ensures
        r == spec_pct_change(current_price, time_frame, prev_close_price, data@),
{
    let ghost s = data@;
    let n = data.len();
    let mut first_pos: u64 = 0;
    let mut i: usize = 0;
    proof {
        assert(s.take(0) =~= Seq::<PriceSample>::empty());
    }
    while i < n
        invariant
            i <= n,
            n == s.len(),
            data@ == s,
            first_pos as int == spec_first_pos_close(s.take(i as int)),
        decreases n - i,
    {
        proof {
            assert(s.take(i + 1).drop_last() =~= s.take(i as int));
            assert(s.take(i + 1).last() == s[i as int]);
        }
        if first_pos == 0 && data[i].close > 0 {
            first_pos = data[i].close;
        }
        i += 1;
    }
    proof {
        assert(s.take(n as int) =~= s);
        lemma_first_pos_close(s);
    }
    if first_pos == 0 {
        return 0;
    }
    let baseline: u64 = match (time_frame, prev_close_price) {
        (TimeFrame::Day1, Some(p)) => p,
        _ => first_pos,
    };
    proof {
        assert(baseline as int == spec_baseline(time_frame, prev_close_price, s));
        lemma_mul_inequality(current_price as int, u64::MAX as int, PCT_SCALE as int);
    }
    let num: u128 = (current_price as u128) * (PCT_SCALE as u128);
    let q: u128 = num / (baseline as u128);
    proof {
        vstd::arithmetic::div_mod::lemma_div_nonincreasing(num as int, baseline as int);
    }
    let r: i128 = (q as i128) - (PCT_SCALE as i128);
    r
}

/// Computes the high/low display range for a series: the maximum sample
/// `high` and the minimum non-zero sample `low` (each zero when the series
/// gives no data), then widened so that the range always contains the
/// current price.
pub fn get_high_low(current_price: u64, data: &Vec<PriceSample>) -> (r: (u64, u64))
    ensures
        r.0 as int == spec_adjusted_high(current_price, data@),
        r.1 as int == spec_adjusted_low(current_price, data@),
        r.1 <= current_price && current_price <= r.0,
        forall|k: int| 0 <= k < data@.len() ==> data@[k].high <= r.0,
        forall|k: int| 0 <= k < data@.len() && data@[k].low != 0 ==> r.1 <= data@[k].low,
{
    let ghost s = data@;
    let n = data.len();
    let mut mx: u64 = 0;
    let mut mn: u64 = 0;
    let mut i: usize = 0;
    proof {
        assert(s.take(0) =~= Seq::<PriceSample>::empty());
    }
    while i < n
        invariant
            i <= n,
            n == s.len(),
            data@ == s,
            mx as int == spec_max_high(s.take(i as int)),
            mn as int == spec_min_pos_low(s.take(i as int)),
        decreases n - i,
    {
        proof {
            assert(s.take(i + 1).drop_last() =~= s.take(i as int));
            assert(s.take(i + 1).last() == s[i as int]);
        }
        let p = data[i];
        if p.high > mx {
            mx = p.high;
        }
        if p.low != 0 && (mn == 0 || p.low < mn) {
            mn = p.low;
        }
        i += 1;
    }
    proof {
        assert(s.take(n as int) =~= s);
        lemma_max_high(s);
        lemma_min_pos_low(s);
    }
    let mut high = mx;
    let mut low = mn;
    if current_price <= low {
        low = current_price;
    }
    if current_price > high {
        high = current_price;
    }
    (high, low)
}

/// Optional company metadata carried along with a quote.
#[derive(Debug, PartialEq, Eq)]
pub struct CompanyInfo {
    pub name: Option<String>,
    pub website: Option<String>,
}

/// The assembled result of one fetch cycle for one symbol: the derived
/// metrics next to the raw series they came from. Immutable after
/// construction.
#[derive(Debug)]
pub struct Stock {
    pub high: u64,
    pub low: u64,
    pub symbol: String,
    pub prices: Vec<PriceSample>,
    pub current_price: u64,
    pub time_frame: TimeFrame,
    pub pct_change: i128,
    pub company: Option<CompanyInfo>,
    pub market_cap: Option<u64>,
}

impl Stock {
    /// Assembles a `Stock` from the two fetched payloads for a symbol: the
    /// snapshot fields (regular and post-market price, company metadata,
    /// market cap) and the historical series with its previous close. The
    /// previous close is used as the percent-change baseline only for the
    /// daily frame.
    pub fn new(
        symbol: String,
        company: Option<CompanyInfo>,
        market_cap: Option<u64>,
        current_regular_price: u64,
        current_post_price: Option<u64>,
        time_frame: TimeFrame,
        chart_previous_close: u64,
        prices: Vec<PriceSample>,
    ) -> (stock: Stock)
        requires
            time_frame == TimeFrame::Day1 && has_pos_close(prices@) ==> chart_previous_close > 0,
        ensures
            stock.symbol == symbol,
            stock.company == company,
            stock.market_cap == market_cap,
            stock.time_frame == time_frame,
            stock.prices == prices,
            stock.current_price == spec_current_price(current_regular_price, current_post_price),
            stock.high as int == spec_adjusted_high(stock.current_price, prices@),
            stock.low as int == spec_adjusted_low(stock.current_price, prices@),
            stock.pct_change == spec_pct_change(
                stock.current_price,
                time_frame,
                if time_frame == TimeFrame::Day1 {
                    Some(chart_previous_close)
                } else {
                    None
                },
                prices@,
            ),
    {
        let prev_close_price: Option<u64> = if time_frame == TimeFrame::Day1 {
            Some(chart_previous_close)
        } else {
            None
        };
        let current_price = get_current_price(current_regular_price, current_post_price);
        let (high, low) = get_high_low(current_price, &prices);
        let pct_change = pct_change(current_price, time_frame, prev_close_price, &prices);
        Stock {
            symbol,
            company,
            market_cap,
            prices,
            high,
            low,
            current_price,
            time_frame,
            pct_change,
        }
    }
}

/// Resolving the current price is pure: two results obtained from the same
/// inputs are the same value.
pub proof fn lemma_current_price_pure(
    regular_price: u64,
    post_price: Option<u64>,
    r1: u64,
    r2: u64,
)
    requires
        r1 == spec_current_price(regular_price, post_price),
        r2 == spec_current_price(regular_price, post_price),
    ensures
        r1 == r2,
{
}

/// Computing the high/low range is pure: two results obtained from the
/// same inputs are the same pair.
pub proof fn lemma_high_low_pure(
    current: u64,
    s: Seq<PriceSample>,
    r1: (u64, u64),
    r2: (u64, u64),
)
    requires
        r1.0 as int == spec_adjusted_high(current, s),
        r1.1 as int == spec_adjusted_low(current, s),
        r2.0 as int == spec_adjusted_high(current, s),
        r2.1 as int == spec_adjusted_low(current, s),
    ensures
        r1 == r2,
{
}

/// Computing the percent change is pure: two results obtained from the
/// same inputs are the same value.
pub proof fn lemma_pct_change_pure(
    current: u64,
    time_frame: TimeFrame,
    prev_close_price: Option<u64>,
    s: Seq<PriceSample>,
    r1: i128,
    r2: i128,
)
    requires
        r1 == spec_pct_change(current, time_frame, prev_close_price, s),
        r2 == spec_pct_change(current, time_frame, prev_close_price, s),
    ensures
        r1 == r2,
{
}

} // verus!
