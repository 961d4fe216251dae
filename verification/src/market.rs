//! The public side of a market: order books, trades, and the models of queueing and latency.

use crate::decimal::{
    law_exact_product, lemma_nought, lemma_of_parts, lemma_parts_of, lemma_sign, pow10, Decimal,
    MAX_SCALE,
};
use crate::instrument::Side;
use crate::time::Timestamp;
use vstd::prelude::*;

verus! {

/// How much of a resting order the market executes. A model is a function of what it is asked.
pub trait QueueModel {
    /// What [`QueueModel::executable_quantity`] returns.
    open spec fn touched(&self, available: Decimal, requested: Decimal) -> Decimal {
        arbitrary()
    }

    /// What [`QueueModel::executable_trade_quantity`] returns.
    open spec fn traded(
        &self,
        available: Decimal,
        requested: Decimal,
        side: Side,
        order_price: Decimal,
        trade_price: Decimal,
    ) -> Decimal {
        arbitrary()
    }

    /// The quantity available when a resting order is touched by an order book update.
    fn executable_quantity(&self, available: Decimal, requested: Decimal) -> (result: Decimal)
        ensures
            result == self.touched(available, requested),
    ;

    /// The quantity available when a public trade occurs at `trade_price`.
    fn executable_trade_quantity(
        &self,
        available: Decimal,
        requested: Decimal,
        side: Side,
        order_price: Decimal,
        trade_price: Decimal,
    ) -> (result: Decimal)
        ensures
            result == self.traded(available, requested, side, order_price, trade_price),
    ;
}

/// Fills a resting order as soon as its price is touched by the current book, and never on a
/// public trade.
#[derive(Debug, Clone, Copy)]
pub struct NoQueue;

/// A resting order only fills once public volume trades through its limit price. Updates of the
/// book alone never fill it.
#[derive(Debug, Clone, Copy)]
pub struct ConservativeQueue;

/// Another name for the model that fills on touch.
pub type PriceTimeQueue = NoQueue;

impl Default for NoQueue {
    fn default() -> (result: NoQueue) {
        NoQueue
    }
}

impl Default for ConservativeQueue {
    fn default() -> (result: ConservativeQueue) {
        ConservativeQueue
    }
}

impl QueueModel for NoQueue {
    open spec fn touched(&self, available: Decimal, requested: Decimal) -> Decimal {
        available.smaller(requested)
    }

    open spec fn traded(
        &self,
        available: Decimal,
        requested: Decimal,
        side: Side,
        order_price: Decimal,
        trade_price: Decimal,
    ) -> Decimal {
        Decimal::nought()
    }

    fn executable_quantity(&self, available: Decimal, requested: Decimal) -> (result: Decimal) {
        available.min(requested)
    }

    fn executable_trade_quantity(
        &self,
        available: Decimal,
        requested: Decimal,
        side: Side,
        order_price: Decimal,
        trade_price: Decimal,
    ) -> (result: Decimal) {
        Decimal::zero()
    }
}

/// A trade at `trade_price` is at least as good as the limit of an order on the side.
pub open spec fn trades_through(
    side: Side,
    order_price: Decimal,
    trade_price: Decimal,
) -> bool {
    match side {
        Side::Buy => trade_price.units() <= order_price.units(),
        Side::Sell => trade_price.units() >= order_price.units(),
    }
}

impl QueueModel for ConservativeQueue {
    open spec fn touched(&self, available: Decimal, requested: Decimal) -> Decimal {
        Decimal::nought()
    }

    open spec fn traded(
        &self,
        available: Decimal,
        requested: Decimal,
        side: Side,
        order_price: Decimal,
        trade_price: Decimal,
    ) -> Decimal {
        if trades_through(side, order_price, trade_price) {
            available.smaller(requested)
        } else {
            Decimal::nought()
        }
    }

    fn executable_quantity(&self, available: Decimal, requested: Decimal) -> (result: Decimal) {
        Decimal::zero()
    }

    fn executable_trade_quantity(
        &self,
        available: Decimal,
        requested: Decimal,
        side: Side,
        order_price: Decimal,
        trade_price: Decimal,
    ) -> (result: Decimal) {
        let crossed = match side {
            Side::Buy => trade_price.at_most(&order_price),
            Side::Sell => order_price.at_most(&trade_price),
        };
        if crossed {
            available.min(requested)
        } else {
            Decimal::zero()
        }
    }
}

/// How long the exchange takes, given the configured latency. A model is a function of it.
pub trait LatencyModel {
    /// What [`LatencyModel::delay_ms`] returns.
    open spec fn delay(&self, configured_ms: u64) -> u64 {
        arbitrary()
    }

    /// What [`LatencyModel::feed_delay_ms`] returns.
    open spec fn feed_delay(&self, configured_ms: u64) -> u64 {
        arbitrary()
    }

    /// What [`LatencyModel::order_delay_ms`] returns.
    open spec fn order_delay(&self, configured_ms: u64) -> u64 {
        arbitrary()
    }

    /// The delay of anything that is not told apart further.
    fn delay_ms(&self, configured_ms: u64) -> (result: u64)
        ensures
            result == self.delay(configured_ms),
    ;

    /// The delay of market data.
    fn feed_delay_ms(&self, configured_ms: u64) -> (result: u64)
        ensures
            result == self.feed_delay(configured_ms),
    ;

    /// The delay of requests and their answers.
    fn order_delay_ms(&self, configured_ms: u64) -> (result: u64)
        ensures
            result == self.order_delay(configured_ms),
    ;
}

/// The configured latency, for everything.
#[derive(Debug, Clone, Copy)]
pub struct FixedLatency;

impl Default for FixedLatency {
    fn default() -> (result: FixedLatency) {
        FixedLatency
    }
}

impl LatencyModel for FixedLatency {
    open spec fn delay(&self, configured_ms: u64) -> u64 {
        configured_ms
    }

    open spec fn feed_delay(&self, configured_ms: u64) -> u64 {
        self.delay(configured_ms)
    }

    open spec fn order_delay(&self, configured_ms: u64) -> u64 {
        self.delay(configured_ms)
    }

    fn delay_ms(&self, configured_ms: u64) -> (result: u64) {
        configured_ms
    }

    fn feed_delay_ms(&self, configured_ms: u64) -> (result: u64) {
        self.delay_ms(configured_ms)
    }

    fn order_delay_ms(&self, configured_ms: u64) -> (result: u64) {
        self.delay_ms(configured_ms)
    }
}

/// A price and how much is offered or wanted at it.
#[derive(Debug, Clone, Copy, PartialEq, Eq)]
pub struct MockMarketLevel {
    pub price: Decimal,
    pub quantity: Decimal,
}

/// What happened in the market.
#[derive(Debug, PartialEq, Eq)]
pub enum MockMarketEventKind {
    OrderBook { bids: Vec<MockMarketLevel>, asks: Vec<MockMarketLevel> },
    Trade { price: Decimal, quantity: Decimal },
}

/// What happened in the market of an instrument, and when.
#[derive(Debug, PartialEq, Eq)]
pub struct MockMarketEvent {
    pub instrument: String,
    pub time_exchange: Timestamp,
    pub kind: MockMarketEventKind,
}

/// What happened in the market, in the way contracts write it.
pub enum MarketKindView {
    OrderBook { bids: Seq<MockMarketLevel>, asks: Seq<MockMarketLevel> },
    Trade { price: Decimal, quantity: Decimal },
}

impl View for MockMarketEventKind {
    type V = MarketKindView;

    open spec fn view(&self) -> MarketKindView {
        match self {
            MockMarketEventKind::OrderBook { bids, asks } => MarketKindView::OrderBook {
                bids: bids@,
                asks: asks@,
            },
            MockMarketEventKind::Trade { price, quantity } => MarketKindView::Trade {
                price: *price,
                quantity: *quantity,
            },
        }
    }
}

impl Clone for MockMarketEventKind {
    fn clone(&self) -> (result: MockMarketEventKind)
        ensures
            result@ == self@,
    {
        match self {
            MockMarketEventKind::OrderBook { bids, asks } => {
                let (copied_bids, copied_asks) = (bids.clone(), asks.clone());
                assert(copied_bids@ =~= bids@);
                assert(copied_asks@ =~= asks@);
                MockMarketEventKind::OrderBook { bids: copied_bids, asks: copied_asks }
            },
            MockMarketEventKind::Trade { price, quantity } => MockMarketEventKind::Trade {
                price: *price,
                quantity: *quantity,
            },
        }
    }
}

impl Clone for MockMarketEvent {
    fn clone(&self) -> (result: MockMarketEvent)
        ensures
            result.instrument@ == self.instrument@,
            result.time_exchange == self.time_exchange,
            result.kind@ == self.kind@,
    {
        MockMarketEvent {
            instrument: self.instrument.clone(),
            time_exchange: self.time_exchange,
            kind: self.kind.clone(),
        }
    }
}

/// The bids and the asks of an instrument, each with the best price first.
#[derive(Debug, PartialEq, Eq)]
pub struct MockOrderBook {
    pub bids: Vec<MockMarketLevel>,
    pub asks: Vec<MockMarketLevel>,
}

/// The bids and the asks of an instrument, in the way contracts write them.
pub struct BookView {
    pub bids: Seq<MockMarketLevel>,
    pub asks: Seq<MockMarketLevel>,
}

impl View for MockOrderBook {
    type V = BookView;

    open spec fn view(&self) -> BookView {
        BookView { bids: self.bids@, asks: self.asks@ }
    }
}

impl Clone for MockOrderBook {
    fn clone(&self) -> (result: MockOrderBook)
        ensures
            result@ == self@,
    {
        let result = MockOrderBook { bids: self.bids.clone(), asks: self.asks.clone() };
        assert(result@.bids =~= self@.bids);
        assert(result@.asks =~= self@.asks);
        result
    }
}

impl Default for MockOrderBook {
    fn default() -> (result: MockOrderBook)
        ensures
            result@ == (BookView { bids: Seq::empty(), asks: Seq::empty() }),
    {
        let result = MockOrderBook { bids: Vec::new(), asks: Vec::new() };
        assert(result@.bids =~= Seq::empty());
        assert(result@.asks =~= Seq::empty());
        result
    }
}

/// To a taker on the side, the first price is strictly better than the second.
pub open spec fn better(taker: Side, a: Decimal, b: Decimal) -> bool {
    match taker {
        Side::Buy => a.units() < b.units(),
        Side::Sell => a.units() > b.units(),
    }
}

/// The levels with one more, behind every level that is as good.
pub open spec fn with_level(
    taker: Side,
    levels: Seq<MockMarketLevel>,
    level: MockMarketLevel,
) -> Seq<MockMarketLevel>
    decreases levels.len(),
{
    if levels.len() == 0 || !better(taker, level.price, levels.last().price) {
        levels.push(level)
    } else {
        with_level(taker, levels.drop_last(), level).push(levels.last())
    }
}

/// The levels with the best price for the taker first; those of one price keep their order.
pub open spec fn best_first(taker: Side, levels: Seq<MockMarketLevel>) -> Seq<MockMarketLevel>
    decreases levels.len(),
{
    if levels.len() == 0 {
        levels
    } else {
        with_level(taker, best_first(taker, levels.drop_last()), levels.last())
    }
}

/// No level is better than one before it.
pub open spec fn is_best_first(taker: Side, levels: Seq<MockMarketLevel>) -> bool {
    forall|i: int, j: int|
        0 <= i < j < levels.len() ==> !better(
            taker,
            #[trigger] levels[j].price,
            #[trigger] levels[i].price,
        )
}

/// The price is no worse to the taker than the limit, where there is one.
pub open spec fn within_limit(taker: Side, price: Decimal, limit: Option<Decimal>) -> bool {
    limit matches Some(limit) ==> !better(taker, limit, price)
}

/// What a taker has paid and got so far, and what is still wanted.
pub struct Walk {
    pub notional: Decimal,
    pub filled: Decimal,
    pub wanted: Decimal,
}

/// A walk that takes `amount` at the level; `None` where a number is out of range.
pub open spec fn take_level(walk: Walk, level: MockMarketLevel, amount: Decimal) -> Option<Walk> {
    match amount.times(level.price) {
        Some(value) => match (
            walk.notional.plus(value),
            walk.filled.plus(amount),
            walk.wanted.minus(amount),
        ) {
            (Some(notional), Some(filled), Some(wanted)) => Some(Walk { notional, filled, wanted }),
            _ => None,
        },
        None => None,
    }
}

/// The walk over the levels within the limit until nothing is wanted any more; `None` where a
/// number is out of range.
pub open spec fn walk_levels<Q: QueueModel>(
    taker: Side,
    levels: Seq<MockMarketLevel>,
    limit: Option<Decimal>,
    queue: Q,
    walk: Walk,
) -> Option<Walk>
    decreases levels.len(),
{
    if levels.len() == 0 || !within_limit(taker, levels[0].price, limit) {
        Some(walk)
    } else {
        match take_level(walk, levels[0], queue.touched(levels[0].quantity, walk.wanted)) {
            Some(next) => if next.wanted.units() == 0 {
                Some(next)
            } else {
                walk_levels(taker, levels.skip(1), limit, queue, next)
            },
            None => None,
        }
    }
}

/// A walk before its first level.
pub open spec fn walk_start(quantity: Decimal) -> Walk {
    Walk { notional: Decimal::nought(), filled: Decimal::nought(), wanted: quantity }
}

/// The quantity and the average price of a walk, where anything was filled; `None` outside where
/// a number is out of range.
pub open spec fn walk_fill(walk: Option<Walk>) -> Option<Option<(Decimal, Decimal)>> {
    match walk {
        Some(walk) => if walk.filled.units() == 0 {
            Some(None)
        } else {
            match walk.notional.over(walk.filled) {
                Some(price) => Some(Some((walk.filled, price))),
                None => None,
            }
        },
        None => None,
    }
}

/// What a taker of the quantity gets from the levels: the quantity and the average price, where
/// anything is filled; `None` outside where a number is out of range.
pub open spec fn fill_from<Q: QueueModel>(
    taker: Side,
    levels: Seq<MockMarketLevel>,
    quantity: Decimal,
    limit: Option<Decimal>,
    queue: Q,
) -> Option<Option<(Decimal, Decimal)>> {
    walk_fill(walk_levels(taker, levels, limit, queue, walk_start(quantity)))
}

/// The price of a fill of exactly the quantity.
pub open spec fn complete_price(
    fill: Option<(Decimal, Decimal)>,
    quantity: Decimal,
) -> Option<Decimal> {
    match fill {
        Some(fill) => if fill.0.units() == quantity.units() {
            Some(fill.1)
        } else {
            None
        },
        None => None,
    }
}

/// Whether the first price is strictly better than the second to a taker on the side.
fn is_better(taker: Side, a: &Decimal, b: &Decimal) -> (result: bool)
    ensures
        result == better(taker, *a, *b),
{
    match taker {
        Side::Buy => a.less(b),
        Side::Sell => b.less(a),
    }
}

/// Whether the price is within the limit.
fn is_within_limit(taker: Side, price: &Decimal, limit: &Option<Decimal>) -> (result: bool)
    ensures
        result == within_limit(taker, *price, *limit),
{
    match limit {
        Some(limit) => !is_better(taker, limit, price),
        None => true,
    }
}

/// The model executes nothing when the book touches a price.
pub open spec fn never_touched<Q: QueueModel>(queue: Q) -> bool {
    forall|available: Decimal, requested: Decimal| #[trigger]
        queue.touched(available, requested) == Decimal::nought()
}

/// The first level is within the limit and holds all that is wanted, the model hands out all of
/// it, and its value needs no rounding.
pub open spec fn first_level_covers<Q: QueueModel>(
    taker: Side,
    levels: Seq<MockMarketLevel>,
    quantity: Decimal,
    limit: Option<Decimal>,
    queue: Q,
) -> bool {
    let amount = queue.touched(levels[0].quantity, quantity);
    &&& levels.len() > 0
    &&& within_limit(taker, levels[0].price, limit)
    &&& 0 < quantity.units() <= levels[0].quantity.units()
    &&& amount == levels[0].quantity.smaller(quantity)
    &&& levels[0].price.units() != 0
    &&& amount.multiplies_exactly(levels[0].price)
}

/// The digits of the numbers leave room for the amount at the level without rounding.
pub open spec fn leaves_room(walk: Walk, level: MockMarketLevel, amount: Decimal) -> bool {
    &&& amount.multiplies_exactly(level.price)
    &&& walk.notional.adds_exactly(amount.exact_product(level.price))
    &&& walk.filled.adds_exactly(amount)
    &&& walk.wanted.subtracts_exactly(amount)
}

/// A walk that takes the amount at the level, where that needs no rounding.
pub open spec fn exact_step(walk: Walk, level: MockMarketLevel, amount: Decimal) -> Walk {
    Walk {
        notional: walk.notional.exact_sum(amount.exact_product(level.price)),
        filled: walk.filled.exact_sum(amount),
        wanted: walk.wanted.exact_difference(amount),
    }
}

/// The digits of the numbers leave room for the whole walk without rounding.
pub open spec fn needs_no_rounding<Q: QueueModel>(
    taker: Side,
    levels: Seq<MockMarketLevel>,
    limit: Option<Decimal>,
    queue: Q,
    walk: Walk,
) -> bool
    decreases levels.len(),
{
    levels.len() > 0 && within_limit(taker, levels[0].price, limit) ==> {
        let amount = queue.touched(levels[0].quantity, walk.wanted);
        let next = exact_step(walk, levels[0], amount);
        leaves_room(walk, levels[0], amount) && (next.wanted.units() != 0 ==> needs_no_rounding(
            taker,
            levels.skip(1),
            limit,
            queue,
            next,
        ))
    }
}

/// The price is the average of the walk, to the last digit.
pub open spec fn is_average_of(price: Decimal, walk: Option<Walk>) -> bool {
    walk matches Some(walk) && price.is_quotient_of(walk.notional, walk.filled)
}

/// A walk that needs no rounding is exact, and so is an average price that is a decimal number.
pub open spec fn fills_by_value<Q: QueueModel>(
    taker: Side,
    levels: Seq<MockMarketLevel>,
    quantity: Decimal,
    limit: Option<Decimal>,
    queue: Q,
    fill: Option<Option<(Decimal, Decimal)>>,
) -> bool {
    let start = walk_start(quantity);
    &&& needs_no_rounding(taker, levels, limit, queue, start) ==> walks_exactly(
        taker,
        levels,
        limit,
        queue,
        start,
    )
    &&& forall|price: Decimal| #[trigger]
        is_average_of(price, walk_levels(taker, levels, limit, queue, start)) ==> (
        fill matches Some(Some(fill)) && fill.1.units() == price.units())
}

/// A level goes where all levels behind it are worse and the one before it is not.
proof fn lemma_with_level_at(
    taker: Side,
    levels: Seq<MockMarketLevel>,
    level: MockMarketLevel,
    position: int,
)
    requires
        0 <= position <= levels.len(),
        forall|i: int|
            position <= i < levels.len() ==> better(taker, level.price, #[trigger] levels[i].price),
        position > 0 ==> !better(taker, level.price, levels[position - 1].price),
    ensures
        with_level(taker, levels, level) == levels.insert(position, level),
    decreases levels.len(),
{
    if levels.len() == position {
        assert(levels.insert(position, level) =~= levels.push(level));
    } else {
        assert(better(taker, level.price, levels[levels.len() - 1].price));
        lemma_with_level_at(taker, levels.drop_last(), level, position);
        assert(levels.insert(position, level) =~= levels.drop_last().insert(position, level).push(
            levels.last(),
        ));
    }
}

/// Puts the levels in order, the best price for the taker first.
fn sort_levels(taker: Side, levels: Vec<MockMarketLevel>) -> (result: Vec<MockMarketLevel>)
    ensures
        result@ == best_first(taker, levels@),
{
    let mut sorted: Vec<MockMarketLevel> = Vec::new();
    let mut next: usize = 0;
    assert(levels@.take(0) =~= Seq::empty());
    assert(sorted@ =~= Seq::empty());
    while next < levels.len()
        invariant
            next <= levels.len(),
            sorted@ == best_first(taker, levels@.take(next as int)),
        decreases levels.len() - next,
    {
        let level = levels[next];
        let mut position: usize = sorted.len();
        while position > 0 && is_better(taker, &level.price, &sorted[position - 1].price)
            invariant
                position <= sorted.len(),
                forall|i: int|
                    position <= i < sorted.len() ==> better(
                        taker,
                        level.price,
                        #[trigger] sorted@[i].price,
                    ),
            decreases position,
        {
            position = position - 1;
        }
        proof {
            lemma_with_level_at(taker, sorted@, level, position as int);
            assert(levels@.take(next + 1).drop_last() =~= levels@.take(next as int));
        }
        sorted.insert(position, level);
        next = next + 1;
    }
    assert(levels@.take(next as int) =~= levels@);
    sorted
}

/// Walks the levels; `None` where a number is out of range.
fn fill_levels<Q: QueueModel>(
    taker: Side,
    levels: &Vec<MockMarketLevel>,
    quantity: Decimal,
    limit: Option<Decimal>,
    queue: &Q,
) -> (result: Option<Option<(Decimal, Decimal)>>)
    ensures
        result == fill_from(taker, levels@, quantity, limit, *queue),
        never_touched(*queue) ==> result == Some(None::<(Decimal, Decimal)>),
        first_level_covers(taker, levels@, quantity, limit, *queue) ==> (result matches Some(
            Some(fill),
        ) && fill.0.units() == quantity.units() && fill.1 == levels@[0].price),
        fills_by_value(taker, levels@, quantity, limit, *queue, result),
{
    broadcast use lemma_parts_of;

    let mut notional = Decimal::zero();
    let mut filled = Decimal::zero();
    let mut wanted = quantity;
    let mut next: usize = 0;
    let ghost whole = walk_levels(taker, levels@, limit, *queue, walk_start(quantity));
    let ghost roomy = needs_no_rounding(taker, levels@, limit, *queue, walk_start(quantity));
    let ghost exact = walks_exactly(taker, levels@, limit, *queue, walk_start(quantity));
    assert(levels@.skip(0) =~= levels@);
    while next < levels.len()
        invariant_except_break
            roomy ==> needs_no_rounding(
                taker,
                levels@.skip(next as int),
                limit,
                *queue,
                (Walk { notional, filled, wanted }),
            ),
            roomy && walks_exactly(
                taker,
                levels@.skip(next as int),
                limit,
                *queue,
                (Walk { notional, filled, wanted }),
            ) ==> exact,
            next <= levels.len(),
            whole == walk_levels(
                taker,
                levels@.skip(next as int),
                limit,
                *queue,
                (Walk { notional, filled, wanted }),
            ),
            !first_level_covers(taker, levels@, quantity, limit, *queue) || next == 0,
            next == 0 ==> notional == Decimal::nought() && filled == Decimal::nought() && wanted
                == quantity,
        invariant
            whole == walk_levels(taker, levels@, limit, *queue, walk_start(quantity)),
            roomy == needs_no_rounding(taker, levels@, limit, *queue, walk_start(quantity)),
            exact == walks_exactly(taker, levels@, limit, *queue, walk_start(quantity)),
            never_touched(*queue) ==> notional == Decimal::nought() && filled == Decimal::nought(),
        ensures
            whole == Some(Walk { notional, filled, wanted }),
            roomy ==> exact,
            first_level_covers(taker, levels@, quantity, limit, *queue) ==> filled.units()
                == quantity.units() && filled.digits() != 0 && levels@[0].price.digits() != 0
                && notional.digits() == levels@[0].price.digits() * filled.digits()
                && notional.places() == levels@[0].price.places() + filled.places(),
        decreases levels.len() - next,
    {
        let level = levels[next];
        assert(levels@.skip(next as int)[0] == level);
        assert(levels@.skip(next as int).skip(1) =~= levels@.skip(next + 1));
        if !is_within_limit(taker, &level.price, &limit) {
            break;
        }
        let amount = queue.executable_quantity(level.quantity, wanted);
        proof {
            lemma_nought();
            lemma_sign(amount);
            lemma_sign(wanted);
            lemma_sign(level.price);
            if never_touched(*queue) {
                assert(amount == Decimal::nought());
            }
            if amount.multiplies_exactly(level.price) {
                law_exact_product(amount, level.price);
            }
        }
        let value = match amount.checked_mul(&level.price) {
            Some(value) => value,
            None => return None,
        };
        match (notional.checked_add(&value), filled.checked_add(&amount), wanted.checked_sub(
            &amount,
        )) {
            (Some(next_notional), Some(next_filled), Some(next_wanted)) => {
                notional = next_notional;
                filled = next_filled;
                wanted = next_wanted;
            },
            _ => return None,
        }
        if wanted.is_zero() {
            proof {
                if first_level_covers(taker, levels@, quantity, limit, *queue) {
                    let a = amount.digits() as int;
                    let b = level.price.digits() as int;
                    assert(a * b == b * a) by (nonlinear_arith);
                    assert(next == 0);
                    assert(amount.digits() != 0 && level.price.digits() != 0);
                    assert(amount.multiplies_exactly(level.price));
                    let places = (amount.places() + level.price.places()) as u32;
                    lemma_parts_of((a * b) as i128, places);
                    assert(value == Decimal::of((a * b) as i128, places));
                    assert(value.digits() == a * b);
                    assert(notional == value);
                    assert(filled == amount);
                }
            }
            break;
        }
        next = next + 1;
    }
    proof {
        if first_level_covers(taker, levels@, quantity, limit, *queue) {
            let price = levels@[0].price;
            assert(notional.digits() == price.digits() * filled.digits());
            lemma_of_parts(price);
        }
    }
    if filled.is_zero() {
        Some(None)
    } else {
        match notional.checked_div(&filled) {
            Some(price) => Some(Some((filled, price))),
            None => None,
        }
    }
}

impl MockOrderBook {
    /// Replaces the book by the one of the event; an event without a book leaves it as it is.
    pub fn update(&mut self, kind: MockMarketEventKind)
        ensures
            final(self)@ == (match kind {
                MockMarketEventKind::OrderBook { bids, asks } => BookView {
                    bids: best_first(Side::Sell, bids@),
                    asks: best_first(Side::Buy, asks@),
                },
                MockMarketEventKind::Trade { .. } => old(self)@,
            }),
    {
        match kind {
            MockMarketEventKind::OrderBook { bids, asks } => {
                self.bids = sort_levels(Side::Sell, bids);
                self.asks = sort_levels(Side::Buy, asks);
            },
            MockMarketEventKind::Trade { .. } => {},
        }
    }

    /// The average price at which the whole quantity can be bought.
    pub fn walk_asks(&self, quantity: Decimal) -> (result: Option<Decimal>)
        requires
            fill_from(Side::Buy, self.asks@, quantity, None, NoQueue) is Some,
        ensures
            result == complete_price(
                fill_from(Side::Buy, self.asks@, quantity, None, NoQueue)->0,
                quantity,
            ),
            fills_by_value(
                Side::Buy,
                self.asks@,
                quantity,
                None,
                NoQueue,
                fill_from(Side::Buy, self.asks@, quantity, None, NoQueue),
            ),
    {
        match self.walk_asks_until(quantity, None) {
            Some(fill) => if fill.0 == quantity {
                Some(fill.1)
            } else {
                None
            },
            None => None,
        }
    }

    /// How much of the quantity can be bought at no more than a price, and the average price.
    pub fn walk_asks_until(&self, quantity: Decimal, max_price: Option<Decimal>) -> (result: Option<
        (Decimal, Decimal),
    >)
        requires
            fill_from(Side::Buy, self.asks@, quantity, max_price, NoQueue) is Some,
        ensures
            result == fill_from(Side::Buy, self.asks@, quantity, max_price, NoQueue)->0,
            fills_by_value(Side::Buy, self.asks@, quantity, max_price, NoQueue, Some(result)),
    {
        self.walk_asks_until_with(quantity, max_price, &NoQueue)
    }

    /// How much of the quantity can be bought at no more than a price where the model says what
    /// each level gives, and the average price.
    pub fn walk_asks_until_with<Q: QueueModel>(
        &self,
        quantity: Decimal,
        max_price: Option<Decimal>,
        queue: &Q,
    ) -> (result: Option<(Decimal, Decimal)>)
        requires
            fill_from(Side::Buy, self.asks@, quantity, max_price, *queue) is Some,
        ensures
            result == fill_from(Side::Buy, self.asks@, quantity, max_price, *queue)->0,
            fills_by_value(Side::Buy, self.asks@, quantity, max_price, *queue, Some(result)),
            never_touched(*queue) ==> result is None,
            first_level_covers(Side::Buy, self.asks@, quantity, max_price, *queue) ==> (
            result matches Some(fill) && fill.0.units() == quantity.units() && fill.1
                == self.asks@[0].price),
    {
        match fill_levels(Side::Buy, &self.asks, quantity, max_price, queue) {
            Some(fill) => fill,
            None => None,
        }
    }

    /// The average price at which the whole quantity can be sold.
    pub fn walk_bids(&self, quantity: Decimal) -> (result: Option<Decimal>)
        requires
            fill_from(Side::Sell, self.bids@, quantity, None, NoQueue) is Some,
        ensures
            result == complete_price(
                fill_from(Side::Sell, self.bids@, quantity, None, NoQueue)->0,
                quantity,
            ),
            fills_by_value(
                Side::Sell,
                self.bids@,
                quantity,
                None,
                NoQueue,
                fill_from(Side::Sell, self.bids@, quantity, None, NoQueue),
            ),
    {
        match self.walk_bids_until(quantity, None) {
            Some(fill) => if fill.0 == quantity {
                Some(fill.1)
            } else {
                None
            },
            None => None,
        }
    }

    /// How much of the quantity can be sold at no less than a price, and the average price.
    pub fn walk_bids_until(&self, quantity: Decimal, min_price: Option<Decimal>) -> (result: Option<
        (Decimal, Decimal),
    >)
        requires
            fill_from(Side::Sell, self.bids@, quantity, min_price, NoQueue) is Some,
        ensures
            result == fill_from(Side::Sell, self.bids@, quantity, min_price, NoQueue)->0,
            fills_by_value(Side::Sell, self.bids@, quantity, min_price, NoQueue, Some(result)),
    {
        self.walk_bids_until_with(quantity, min_price, &NoQueue)
    }

    /// How much of the quantity can be sold at no less than a price where the model says what
    /// each level takes, and the average price.
    pub fn walk_bids_until_with<Q: QueueModel>(
        &self,
        quantity: Decimal,
        min_price: Option<Decimal>,
        queue: &Q,
    ) -> (result: Option<(Decimal, Decimal)>)
        requires
            fill_from(Side::Sell, self.bids@, quantity, min_price, *queue) is Some,
        ensures
            result == fill_from(Side::Sell, self.bids@, quantity, min_price, *queue)->0,
            fills_by_value(Side::Sell, self.bids@, quantity, min_price, *queue, Some(result)),
            never_touched(*queue) ==> result is None,
            first_level_covers(Side::Sell, self.bids@, quantity, min_price, *queue) ==> (
            result matches Some(fill) && fill.0.units() == quantity.units() && fill.1
                == self.bids@[0].price),
    {
        match fill_levels(Side::Sell, &self.bids, quantity, min_price, queue) {
            Some(fill) => fill,
            None => None,
        }
    }

    /// What a taker on the side gets from the book; `None` outside where a number is out of
    /// range.
    pub fn try_walk<Q: QueueModel>(
        &self,
        taker: Side,
        quantity: Decimal,
        limit: Option<Decimal>,
        queue: &Q,
    ) -> (result: Option<Option<(Decimal, Decimal)>>)
        ensures
            result == fill_from(taker, self@.facing(taker), quantity, limit, *queue),
            fills_by_value(taker, self@.facing(taker), quantity, limit, *queue, result),
            never_touched(*queue) ==> result == Some(None::<(Decimal, Decimal)>),
            first_level_covers(taker, self@.facing(taker), quantity, limit, *queue) ==> (
            result matches Some(Some(fill)) && fill.0.units() == quantity.units() && fill.1
                == self@.facing(taker)[0].price),
    {
        match taker {
            Side::Buy => fill_levels(taker, &self.asks, quantity, limit, queue),
            Side::Sell => fill_levels(taker, &self.bids, quantity, limit, queue),
        }
    }

    /// The average price at which a taker on the side gets the whole quantity; `None` outside
    /// where a number is out of range.
    pub fn try_walk_all(&self, taker: Side, quantity: Decimal) -> (result: Option<Option<Decimal>>)
        ensures
            result == (match fill_from(taker, self@.facing(taker), quantity, None, NoQueue) {
                Some(fill) => Some(complete_price(fill, quantity)),
                None => None,
            }),
            fills_by_value(
                taker,
                self@.facing(taker),
                quantity,
                None,
                NoQueue,
                fill_from(taker, self@.facing(taker), quantity, None, NoQueue),
            ),
    {
        match self.try_walk(taker, quantity, None, &NoQueue) {
            Some(_) => Some(
                match taker {
                    Side::Buy => self.walk_asks(quantity),
                    Side::Sell => self.walk_bids(quantity),
                },
            ),
            None => None,
        }
    }
}

impl BookView {
    /// The levels that a taker on the side meets.
    pub open spec fn facing(self, taker: Side) -> Seq<MockMarketLevel> {
        match taker {
            Side::Buy => self.asks,
            Side::Sell => self.bids,
        }
    }
}

/// The levels of one price, in order.
pub open spec fn at_price(levels: Seq<MockMarketLevel>, units: int) -> Seq<MockMarketLevel> {
    levels.filter(|level: MockMarketLevel| level.price.units() == units)
}

/// One more level keeps the order, adds just itself, and goes behind the others of its price.
proof fn lemma_with_level(taker: Side, levels: Seq<MockMarketLevel>, level: MockMarketLevel)
    requires
        is_best_first(taker, levels),
    ensures
        is_best_first(taker, with_level(taker, levels, level)),
        with_level(taker, levels, level).to_multiset() == levels.to_multiset().insert(level),
        with_level(taker, levels, level).len() == levels.len() + 1,
        forall|units: int| #[trigger]
            at_price(with_level(taker, levels, level), units) == at_price(
                levels.push(level),
                units,
            ),
        forall|i: int|
            0 <= i <= levels.len() ==> (#[trigger] with_level(taker, levels, level)[i] == level
                || levels.contains(with_level(taker, levels, level)[i])),
    decreases levels.len(),
{
    broadcast use {
        vstd::seq_lib::group_to_multiset_ensures,
        vstd::seq_lib::group_seq_properties,
        Seq::lemma_filter_push,
    };

    let result = with_level(taker, levels, level);
    if levels.len() == 0 || !better(taker, level.price, levels.last().price) {
        assert forall|i: int, j: int| 0 <= i < j < result.len() implies !better(
            taker,
            #[trigger] result[j].price,
            #[trigger] result[i].price,
        ) by {
            if j == levels.len() && i < levels.len() - 1 {
                assert(!better(taker, levels[levels.len() - 1].price, levels[i].price));
            }
        }
        assert forall|i: int| 0 <= i <= levels.len() implies (#[trigger] result[i] == level
            || levels.contains(result[i])) by {
            if i < levels.len() {
                assert(levels[i] == result[i]);
            }
        }
    } else {
        let front = levels.drop_last();
        let last = levels.last();
        assert(levels =~= front.push(last));
        assert(is_best_first(taker, front)) by {
            assert forall|i: int, j: int| 0 <= i < j < front.len() implies !better(
                taker,
                #[trigger] front[j].price,
                #[trigger] front[i].price,
            ) by {
                assert(front[j] == levels[j] && front[i] == levels[i]);
            }
        }
        lemma_with_level(taker, front, level);
        let inner = with_level(taker, front, level);
        assert(result == inner.push(last));
        assert forall|i: int, j: int| 0 <= i < j < result.len() implies !better(
            taker,
            #[trigger] result[j].price,
            #[trigger] result[i].price,
        ) by {
            if j == inner.len() {
                assert(result[j] == last);
                assert(result[i] == inner[i]);
                if inner[i] != level {
                    let k = choose|k: int| 0 <= k < front.len() && front[k] == inner[i];
                    assert(levels[k] == inner[i]);
                    assert(!better(taker, levels[levels.len() - 1].price, levels[k].price));
                }
            } else {
                assert(result[j] == inner[j] && result[i] == inner[i]);
            }
        }
        assert forall|units: int| #[trigger] at_price(result, units) == at_price(
            levels.push(level),
            units,
        ) by {
            let pred = |level: MockMarketLevel| level.price.units() == units;
            assert(at_price(inner, units) == at_price(front.push(level), units));
            Seq::lemma_filter_push(inner, last, pred);
            Seq::lemma_filter_push(front, level, pred);
            Seq::lemma_filter_push(front, last, pred);
            Seq::lemma_filter_push(levels, level, pred);
        }
        assert forall|i: int| 0 <= i <= levels.len() implies (#[trigger] result[i] == level
            || levels.contains(result[i])) by {
            if i == levels.len() {
                assert(levels[levels.len() - 1] == result[i]);
            } else {
                assert(result[i] == inner[i]);
                if inner[i] != level {
                    let k = choose|k: int| 0 <= k < front.len() && front[k] == inner[i];
                    assert(levels[k] == result[i]);
                }
            }
        }
        assert(inner.push(last).to_multiset() == inner.to_multiset().insert(last));
        assert(levels.to_multiset() == front.to_multiset().insert(last));
        assert(result.to_multiset() =~= levels.to_multiset().insert(level));
    }
}

/// A book that was updated has its best price first, holds just the levels that came, and keeps
/// those of one price in the order in which they came.
pub proof fn law_updated_book_is_sorted(taker: Side, levels: Seq<MockMarketLevel>)
    ensures
        is_best_first(taker, best_first(taker, levels)),
        best_first(taker, levels).to_multiset() == levels.to_multiset(),
        forall|units: int| #[trigger]
            at_price(best_first(taker, levels), units) == at_price(levels, units),
    decreases levels.len(),
{
    if levels.len() > 0 {
        broadcast use vstd::seq_lib::group_to_multiset_ensures;

        let front = levels.drop_last();
        law_updated_book_is_sorted(taker, front);
        lemma_with_level(taker, best_first(taker, front), levels.last());
        assert(levels =~= front.push(levels.last()));
        assert(levels.to_multiset() == front.to_multiset().insert(levels.last()));
        assert forall|units: int| #[trigger]
            at_price(best_first(taker, levels), units) == at_price(levels, units) by {
            let pred = |level: MockMarketLevel| level.price.units() == units;
            Seq::lemma_filter_push(best_first(taker, front), levels.last(), pred);
            Seq::lemma_filter_push(front, levels.last(), pred);
            assert(at_price(best_first(taker, front), units) == at_price(front, units));
        }
    }
}

/// Under the conservative model the book alone executes nothing.
pub proof fn law_conservative_model_is_never_touched()
    ensures
        never_touched(ConservativeQueue),
{
}

/// Taking the amount at the level needs no rounding.
pub open spec fn takes_level_exactly(walk: Walk, level: MockMarketLevel, amount: Decimal) -> bool {
    &&& amount.times(level.price) matches Some(value) && value.units() * pow10(MAX_SCALE as nat)
        == amount.units() * level.price.units() && (take_level(walk, level, amount) matches Some(
        next,
    ) && next.notional.units() == walk.notional.units() + value.units())
    &&& take_level(walk, level, amount)->0.filled.units() == walk.filled.units() + amount.units()
    &&& take_level(walk, level, amount)->0.wanted.units() == walk.wanted.units() - amount.units()
}

/// No step of the walk needs rounding.
pub open spec fn walks_exactly<Q: QueueModel>(
    taker: Side,
    levels: Seq<MockMarketLevel>,
    limit: Option<Decimal>,
    queue: Q,
    walk: Walk,
) -> bool
    decreases levels.len(),
{
    levels.len() > 0 && within_limit(taker, levels[0].price, limit) ==> {
        let amount = queue.touched(levels[0].quantity, walk.wanted);
        let next = take_level(walk, levels[0], amount)->0;
        takes_level_exactly(walk, levels[0], amount) && (next.wanted.units() != 0
            ==> walks_exactly(taker, levels.skip(1), limit, queue, next))
    }
}

/// The model hands out no more than is wanted, and nothing negative.
pub open spec fn hands_out_what_is_wanted<Q: QueueModel>(queue: Q) -> bool {
    forall|available: Decimal, requested: Decimal|
        available.units() >= 0 && requested.units() >= 0 ==> 0 <= (#[trigger] queue.touched(
            available,
            requested,
        )).units() <= requested.units()
}

/// The value of a walk is no worse to the taker than so much at the limit.
pub open spec fn no_worse_than(taker: Side, walk: Walk, limit: Decimal) -> bool {
    let paid = walk.notional.units() * pow10(MAX_SCALE as nat);
    let bound = walk.filled.units() * limit.units();
    match taker {
        Side::Buy => paid <= bound,
        Side::Sell => paid >= bound,
    }
}

/// Where no step needs rounding, a walk fills no more than was wanted, what is filled and what is
/// still wanted add up, and an average price is never worse than the limit.
pub proof fn law_walk_keeps_to_quantity_and_limit<Q: QueueModel>(
    taker: Side,
    levels: Seq<MockMarketLevel>,
    limit: Decimal,
    queue: Q,
    walk: Walk,
)
    requires
        hands_out_what_is_wanted(queue),
        forall|i: int| 0 <= i < levels.len() ==> (#[trigger] levels[i]).quantity.units() >= 0,
        walks_exactly(taker, levels, Some(limit), queue, walk),
        walk.wanted.units() >= 0,
        no_worse_than(taker, walk, limit),
    ensures
        walk_levels(taker, levels, Some(limit), queue, walk) matches Some(done)
            && done.wanted.units() >= 0 && done.filled.units() >= walk.filled.units()
            && done.filled.units() + done.wanted.units() == walk.filled.units()
            + walk.wanted.units() && no_worse_than(taker, done, limit),
    decreases levels.len(),
{
    if levels.len() > 0 && within_limit(taker, levels[0].price, Some(limit)) {
        let level = levels[0];
        let amount = queue.touched(level.quantity, walk.wanted);
        let value = amount.times(level.price)->0;
        let next = take_level(walk, level, amount)->0;
        let scale = pow10(MAX_SCALE as nat);
        let (a, p, l) = (amount.units(), level.price.units(), limit.units());
        let (n, f, v) = (walk.notional.units(), walk.filled.units(), value.units());
        assert((n + v) * scale == n * scale + a * p) by (nonlinear_arith)
            requires
                v * scale == a * p,
        ;
        assert((f + a) * l == f * l + a * l) by (nonlinear_arith);
        match taker {
            Side::Buy => {
                assert(a * p <= a * l) by (nonlinear_arith)
                    requires
                        0 <= a,
                        p <= l,
                ;
            },
            Side::Sell => {
                assert(a * p >= a * l) by (nonlinear_arith)
                    requires
                        0 <= a,
                        p >= l,
                ;
            },
        }
        if next.wanted.units() != 0 {
            let rest = levels.skip(1);
            assert forall|i: int| 0 <= i < rest.len() implies (#[trigger] rest[i]).quantity.units()
                >= 0 by {
                assert(rest[i] == levels[i + 1]);
            }
            law_walk_keeps_to_quantity_and_limit(taker, rest, limit, queue, next);
        }
    }
}

/// Both models hand out no more than is wanted, and nothing negative.
pub proof fn law_models_hand_out_what_is_wanted()
    ensures
        hands_out_what_is_wanted(NoQueue),
        hands_out_what_is_wanted(ConservativeQueue),
{
    lemma_nought();
}

/// How much stands at the levels within the limit.
pub open spec fn standing(
    taker: Side,
    levels: Seq<MockMarketLevel>,
    limit: Option<Decimal>,
) -> int
    decreases levels.len(),
{
    if levels.len() == 0 {
        0
    } else {
        standing(taker, levels.skip(1), limit) + (if within_limit(taker, levels[0].price, limit) {
            levels[0].quantity.units()
        } else {
            0
        })
    }
}

/// Behind a level outside the limit nothing stands within it.
proof fn lemma_nothing_behind_limit(
    taker: Side,
    levels: Seq<MockMarketLevel>,
    limit: Option<Decimal>,
)
    requires
        forall|i: int|
            0 <= i < levels.len() ==> !within_limit(taker, (#[trigger] levels[i]).price, limit),
    ensures
        standing(taker, levels, limit) == 0,
    decreases levels.len(),
{
    if levels.len() > 0 {
        let rest = levels.skip(1);
        assert forall|i: int| 0 <= i < rest.len() implies !within_limit(
            taker,
            (#[trigger] rest[i]).price,
            limit,
        ) by {
            assert(rest[i] == levels[i + 1]);
        }
        lemma_nothing_behind_limit(taker, rest, limit);
        assert(!within_limit(taker, levels[0].price, limit));
    }
}

/// No less than nothing stands within a limit.
proof fn lemma_standing(taker: Side, levels: Seq<MockMarketLevel>, limit: Option<Decimal>)
    requires
        forall|i: int| 0 <= i < levels.len() ==> (#[trigger] levels[i]).quantity.units() >= 0,
    ensures
        standing(taker, levels, limit) >= 0,
    decreases levels.len(),
{
    if levels.len() > 0 {
        let rest = levels.skip(1);
        assert forall|i: int| 0 <= i < rest.len() implies (#[trigger] rest[i]).quantity.units()
            >= 0 by {
            assert(rest[i] == levels[i + 1]);
        }
        lemma_standing(taker, rest, limit);
        assert(levels[0].quantity.units() >= 0);
    }
}

/// Where no step needs rounding, a taker who is filled on touch gets from a sorted book the
/// smaller of what is wanted and what stands within the limit.
pub proof fn law_walk_fills_what_stands_within_limit(
    taker: Side,
    levels: Seq<MockMarketLevel>,
    limit: Option<Decimal>,
    walk: Walk,
)
    requires
        is_best_first(taker, levels),
        forall|i: int| 0 <= i < levels.len() ==> (#[trigger] levels[i]).quantity.units() >= 0,
        walks_exactly(taker, levels, limit, NoQueue, walk),
        walk.wanted.units() >= 0,
    ensures
        walk_levels(taker, levels, limit, NoQueue, walk) matches Some(done) && done.filled.units()
            == walk.filled.units() + (if walk.wanted.units() <= standing(taker, levels, limit) {
            walk.wanted.units()
        } else {
            standing(taker, levels, limit)
        }),
    decreases levels.len(),
{
    lemma_standing(taker, levels, limit);
    if levels.len() > 0 {
        let rest = levels.skip(1);
        assert forall|i: int| 0 <= i < rest.len() implies (#[trigger] rest[i]).quantity.units()
            >= 0 by {
            assert(rest[i] == levels[i + 1]);
        }
        lemma_standing(taker, rest, limit);
        assert(levels[0].quantity.units() >= 0);
        if within_limit(taker, levels[0].price, limit) {
            let next = take_level(
                walk,
                levels[0],
                NoQueue.touched(levels[0].quantity, walk.wanted),
            )->0;
            if next.wanted.units() != 0 {
                assert forall|i: int, j: int| 0 <= i < j < rest.len() implies !better(
                    taker,
                    #[trigger] rest[j].price,
                    #[trigger] rest[i].price,
                ) by {
                    assert(rest[i] == levels[i + 1] && rest[j] == levels[j + 1]);
                }
                law_walk_fills_what_stands_within_limit(taker, rest, limit, next);
            }
        } else {
            assert forall|i: int| 0 <= i < levels.len() implies !within_limit(
                taker,
                (#[trigger] levels[i]).price,
                limit,
            ) by {
                if i > 0 {
                    assert(!better(taker, levels[i].price, levels[0].price));
                }
            }
            lemma_nothing_behind_limit(taker, levels, limit);
        }
    }
}

} // verus!
