//! What is read keeps its meaning: every part of a message or of recorded market data stands where
//! it belongs.

use crate::account::{AssetBalance, Trade};

use crate::backtest::IntoMockMarketKind;
use crate::binance_messages::{
    balance_in, balances_in, my_trade_in, my_trades_in, open_order_in, open_orders_in,
    order_in_report, order_in_response, time_of_millis, trade_in_report,
};
use crate::decimal::decimal_parse;
use crate::instrument::{ExchangeId, Side};
use crate::json::{json_document, member_from, JsonView};
use crate::market::{MarketKindView, MockMarketLevel};
use crate::observation::{DataKind, Level, OrderBookEvent};
use crate::order::{ActiveOrderState, InactiveOrderState, Open, Order, OrderState, TimeInForce};
use crate::text::number_chars;
use crate::time::Timestamp;
use vstd::prelude::*;

verus! {

/// The levels are those that were recorded, one for one.
pub open spec fn told_as_recorded(told: Seq<MockMarketLevel>, recorded: Seq<Level>) -> bool {
    &&& told.len() == recorded.len()
    &&& forall|i: int|
        0 <= i < recorded.len() ==> (#[trigger] told[i]).price == recorded[i].price
            && told[i].quantity == recorded[i].amount
}

/// The level is the one that was recorded, where there was one.
pub open spec fn best_as_recorded(told: Seq<MockMarketLevel>, recorded: Option<Level>) -> bool {
    match recorded {
        Some(level) => told.len() == 1 && told[0].price == level.price && told[0].quantity
            == level.amount,
        None => told.len() == 0,
    }
}

/// A paper exchange is told of a book level by level, with the recorded prices and amounts, bids as
/// bids and asks as asks; of a trade with its price and its amount without a sign; and of nothing
/// else.
pub proof fn law_market_data_is_told_as_recorded(kind: DataKind)
    ensures
        match kind {
            DataKind::OrderBook(OrderBookEvent::Snapshot(book)) => kind.market_kind() matches Some(
                MarketKindView::OrderBook { bids, asks },
            ) && told_as_recorded(bids, book.bids@) && told_as_recorded(asks, book.asks@),
            DataKind::OrderBook(OrderBookEvent::Update(book)) => kind.market_kind() matches Some(
                MarketKindView::OrderBook { bids, asks },
            ) && told_as_recorded(bids, book.bids@) && told_as_recorded(asks, book.asks@),
            DataKind::OrderBookL1(book) => kind.market_kind() matches Some(
                MarketKindView::OrderBook { bids, asks },
            ) && best_as_recorded(bids, book.best_bid) && best_as_recorded(asks, book.best_ask),
            DataKind::Trade(trade) => match (trade.price, trade.amount) {
                (Some(recorded), Some(amount)) => kind.market_kind() matches Some(
                    MarketKindView::Trade { price, quantity },
                ) && price == recorded && (amount.digits() >= 0 ==> quantity == amount) && (
                amount.digits() < 0 ==> quantity == amount.negated()),
                _ => kind.market_kind() is None,
            },
            DataKind::Candle(_) => kind.market_kind() is None,
            DataKind::Liquidation(_) => kind.market_kind() is None,
        },
{
}

/// The point in time lies so many milliseconds after the start of 1970.
pub open spec fn at_millis(time: Timestamp, millis: int) -> bool {
    time.secs * 1_000_000_000 + time.nanos == millis * 1_000_000 && time.nanos < 1_000_000_000
}

/// The milliseconds lie in the years that a point in time can be in.
pub open spec fn holdable(millis: int) -> bool {
    -8_334_601_228_800_000 <= millis < 8_210_266_876_800_000
}

/// Milliseconds lead to the point in time so long after the start of 1970, if there is one.
pub proof fn law_milliseconds_are_kept(millis: i64)
    ensures
        match time_of_millis(millis) {
            Some(time) => holdable(millis as int) && at_millis(time, millis as int),
            None => !holdable(millis as int),
        },
{
}

/// The time is the one under the name, or the other where there is none under it.
pub open spec fn is_time_under(
    time: Timestamp,
    document: JsonView,
    name: Seq<char>,
    otherwise: i64,
) -> bool {
    match document.signed(name) {
        Some(millis) => at_millis(time, millis as int),
        None => at_millis(time, otherwise as int),
    }
}

/// The text is the natural number under the name.
pub open spec fn is_id_under(id: Seq<char>, document: JsonView, name: Seq<char>) -> bool {
    document.unsigned(name) matches Some(number) && id == number_chars(number as nat)
}

/// The word is the one for the side.
pub open spec fn is_word_for(word: Option<Seq<char>>, side: Side) -> bool {
    match side {
        Side::Buy => word == Some("BUY"@),
        Side::Sell => word == Some("SELL"@),
    }
}

/// An order that a report of the stream of user data holds is the one reported: each of its parts
/// is what stands under the name for it.
pub proof fn law_reported_order_is_kept(document: JsonView, now_millis: i64, now: Timestamp)
    requires
        holdable(now_millis as int),
        document.signed("T"@) matches Some(millis) ==> holdable(millis as int),
    ensures
        order_in_report(document, now_millis, now) matches Some(order) ==> {
            &&& document.text("e"@) == Some("executionReport"@)
            &&& order.key.exchange == ExchangeId::BinanceSpot
            &&& order.key.strategy == "binance"@
            &&& document.text("s"@) == Some(order.key.instrument)
            &&& document.text("c"@) == Some(order.key.cid)
            &&& is_word_for(document.text("S"@), order.side)
            &&& document.decimal("p"@) == Some(order.price)
            &&& document.decimal("q"@) == Some(order.quantity)
            &&& order.kind is Market <==> document.text("o"@) == Some("MARKET"@)
            &&& order.time_in_force == (TimeInForce::GoodUntilCancelled { post_only: false })
            &&& match order.state {
                OrderState::Active(ActiveOrderState::Open(open)) => {
                    &&& document.text("X"@) != Some("CANCELED"@)
                    &&& document.text("X"@) != Some("EXPIRED"@)
                    &&& document.text("X"@) != Some("REJECTED"@)
                    &&& document.text("X"@) != Some("FILLED"@)
                    &&& is_id_under(open.id, document, "orderId"@)
                    &&& is_time_under(open.time_exchange, document, "T"@, now_millis)
                    &&& document.decimal("z"@) == Some(open.filled_quantity)
                },
                OrderState::Inactive(InactiveOrderState::Cancelled(cancelled)) => {
                    &&& document.text("X"@) == Some("CANCELED"@) || document.text("X"@) == Some(
                        "EXPIRED"@,
                    ) || document.text("X"@) == Some("REJECTED"@)
                    &&& is_id_under(cancelled.id, document, "orderId"@)
                    &&& is_time_under(cancelled.time_exchange, document, "T"@, now_millis)
                },
                OrderState::Inactive(InactiveOrderState::FullyFilled) => document.text("X"@)
                    == Some("FILLED"@),
                _ => false,
            }
        },
{
    reveal_strlit("CANCELED");
    reveal_strlit("EXPIRED");
    reveal_strlit("REJECTED");
    reveal_strlit("FILLED");
    assert("CANCELED"@.len() == 8 && "EXPIRED"@.len() == 7 && "FILLED"@.len() == 6);
    assert("CANCELED"@[0] == 'C' && "REJECTED"@[0] == 'R');
    law_milliseconds_are_kept(now_millis);
    if let Some(millis) = document.signed("T"@) {
        law_milliseconds_are_kept(millis);
    }
}

/// A report of the stream of user data that holds all that belongs to an order is read.
pub proof fn law_whole_order_report_is_read(document: JsonView, now_millis: i64, now: Timestamp)
    ensures
        order_in_report(document, now_millis, now) is Some <==> {
            &&& document.text("e"@) == Some("executionReport"@)
            &&& document.text("s"@) is Some
            &&& document.unsigned("orderId"@) is Some
            &&& document.text("c"@) is Some
            &&& document.text("S"@) == Some("BUY"@) || document.text("S"@) == Some("SELL"@)
            &&& document.decimal("p"@) is Some
            &&& document.decimal("q"@) is Some
            &&& document.decimal("z"@) is Some
        },
{
}

/// A trade that a report of the stream of user data holds is the one reported: each of its parts is
/// what stands under the name for it, and something was executed.
pub proof fn law_reported_trade_is_kept(document: JsonView, now_millis: i64)
    ensures
        trade_in_report(document, now_millis) matches Some(trade) ==> {
            &&& document.text("e"@) == Some("executionReport"@)
            &&& is_id_under(trade.id, document, "t"@)
            &&& is_id_under(trade.order_id, document, "i"@)
            &&& document.text("s"@) == Some(trade.instrument)
            &&& trade.strategy == "binance"@
            &&& is_time_under(trade.time_exchange, document, "T"@, now_millis)
            &&& trade.side is Buy <==> document.text("S"@) == Some("BUY"@)
            &&& document.decimal("L"@) == Some(trade.price)
            &&& document.decimal("l"@) == Some(trade.quantity)
            &&& trade.quantity.digits() != 0
            &&& document.decimal("n"@) == Some(trade.fees.fees)
        },
        trade_in_report(document, now_millis) is Some <==> {
            &&& document.text("e"@) == Some("executionReport"@)
            &&& document.unsigned("t"@) is Some
            &&& document.unsigned("i"@) is Some
            &&& document.text("s"@) is Some
            &&& document.text("S"@) is Some
            &&& document.decimal("L"@) is Some
            &&& document.decimal("l"@) matches Some(quantity) && quantity.digits() != 0
            &&& document.decimal("n"@) is Some
            &&& match document.signed("T"@) {
                Some(millis) => holdable(millis as int),
                None => holdable(now_millis as int),
            }
        },
{
    law_milliseconds_are_kept(now_millis);
    if let Some(millis) = document.signed("T"@) {
        law_milliseconds_are_kept(millis);
    }
}

/// An active order that an answer reports is the one reported: each of its parts is what stands
/// under the name for it.
pub proof fn law_listed_order_is_kept(instrument: Seq<char>, document: JsonView)
    ensures
        open_order_in(instrument, document) matches Some(order) ==> {
            &&& order.key.exchange == ExchangeId::BinanceSpot
            &&& order.key.strategy == "binance"@
            &&& order.key.instrument == instrument
            &&& document.text("clientOrderId"@) == Some(order.key.cid)
            &&& order.side is Buy <==> document.text("side"@) == Some("BUY"@)
            &&& document.decimal("price"@) == Some(order.price)
            &&& document.decimal("origQty"@) == Some(order.quantity)
            &&& order.kind is Limit <==> document.text("type"@) == Some("LIMIT"@)
            &&& order.time_in_force == (TimeInForce::GoodUntilCancelled { post_only: false })
            &&& is_id_under(order.state.id, document, "orderId"@)
            &&& document.signed("time"@) matches Some(millis) && at_millis(
                order.state.time_exchange,
                millis as int,
            )
            &&& document.decimal("executedQty"@) == Some(order.state.filled_quantity)
        },
        open_order_in(instrument, document) is Some <==> {
            &&& document.unsigned("orderId"@) is Some
            &&& document.text("clientOrderId"@) is Some
            &&& document.text("side"@) is Some
            &&& document.text("type"@) is Some
            &&& document.decimal("price"@) is Some
            &&& document.decimal("origQty"@) is Some
            &&& document.decimal("executedQty"@) is Some
            &&& document.signed("time"@) matches Some(millis) && holdable(millis as int)
        },
{
    if let Some(millis) = document.signed("time"@) {
        law_milliseconds_are_kept(millis);
    }
}

/// A trade of the account that an answer reports is the one reported: each of its parts is what
/// stands under the name for it.
pub proof fn law_listed_trade_is_kept(instrument: Seq<char>, document: JsonView)
    ensures
        my_trade_in(instrument, document) matches Some(trade) ==> {
            &&& is_id_under(trade.id, document, "id"@)
            &&& is_id_under(trade.order_id, document, "orderId"@)
            &&& trade.instrument == instrument
            &&& trade.strategy == "binance"@
            &&& document.signed("time"@) matches Some(millis) && at_millis(
                trade.time_exchange,
                millis as int,
            )
            &&& document.flag("isBuyer"@) == Some(trade.side is Buy)
            &&& document.decimal("price"@) == Some(trade.price)
            &&& document.decimal("qty"@) == Some(trade.quantity)
            &&& document.decimal("commission"@) == Some(trade.fees.fees)
        },
        my_trade_in(instrument, document) is Some <==> {
            &&& document.unsigned("id"@) is Some
            &&& document.unsigned("orderId"@) is Some
            &&& document.flag("isBuyer"@) is Some
            &&& document.decimal("price"@) is Some
            &&& document.decimal("qty"@) is Some
            &&& document.decimal("commission"@) is Some
            &&& document.signed("time"@) matches Some(millis) && holdable(millis as int)
        },
{
    if let Some(millis) = document.signed("time"@) {
        law_milliseconds_are_kept(millis);
    }
}

/// A balance that an answer reports is the one reported: what is free stands under the name for it,
/// and the total is what is free and what is locked. It is left out only where other assets are
/// asked for or a part is missing.
pub proof fn law_listed_balance_is_kept(
    document: JsonView,
    assets: Seq<Seq<char>>,
    time: Timestamp,
)
    ensures
        balance_in(document, assets, time) matches Some(Some(balance)) ==> {
            &&& document.text("asset"@) == Some(balance.asset)
            &&& document.decimal("free"@) == Some(balance.balance.free)
            &&& document.decimal("locked"@) matches Some(locked) && balance.balance.free.plus(
                locked,
            ) == Some(balance.balance.total)
            &&& balance.time_exchange == time
            &&& assets.len() == 0 || exists|i: int|
                0 <= i < assets.len() && #[trigger] assets[i] == balance.asset
        },
        balance_in(document, assets, time) == Some(None::<AssetBalance<Seq<char>>>) <==> {
            ||| document.text("asset"@) is None
            ||| document.decimal("free"@) is None
            ||| document.decimal("locked"@) is None
            ||| assets.len() > 0 && !assets.contains(document.text("asset"@)->0)
        },
{
}

/// An order that is accepted has the id and the executed quantity that the answer reports, none
/// where it reports none, and the time of the answer.
pub proof fn law_accepted_order_is_kept(document: JsonView, now_millis: i64, now: Timestamp)
    ensures
        order_in_response(document, now_millis, now) matches Ok(open) ==> {
            &&& is_id_under(open.id, document, "orderId"@)
            &&& document.text("executedQty"@) is Some ==> document.decimal("executedQty"@) == Some(
                open.filled_quantity,
            )
            &&& document.text("executedQty"@) is None ==> decimal_parse("0"@) == Some(
                (open.filled_quantity.digits(), open.filled_quantity.places()),
            )
            &&& document.member("transactTime"@) matches Some(field) ==> (
            field.signed matches Some(millis) ==> holdable(millis as int) ==> at_millis(
                open.time_exchange,
                millis as int,
            ))
            &&& document.member("transactTime"@) is None ==> (document.member(
                "updateTime"@,
            ) matches Some(field) ==> (field.signed matches Some(millis) ==> holdable(millis as int)
                ==> at_millis(open.time_exchange, millis as int)))
            &&& document.member("transactTime"@) is None && document.member("updateTime"@) is None
                && holdable(now_millis as int) ==> at_millis(open.time_exchange, now_millis as int)
        },
        document.unsigned("orderId"@) is Some && document.decimal("executedQty"@) is Some
            ==> order_in_response(document, now_millis, now) is Ok,
        document.unsigned("orderId"@) is None ==> order_in_response(document, now_millis, now)
            is Err,
{
    law_milliseconds_are_kept(now_millis);
    if let Some(parts) = decimal_parse("0"@) {
        crate::decimal::lemma_parts_are_kept(parts.0, parts.1);
    }
    if let Some(field) = document.member("transactTime"@) {
        if let Some(millis) = field.signed {
            law_milliseconds_are_kept(millis);
        }
    }
    if let Some(field) = document.member("updateTime"@) {
        if let Some(millis) = field.signed {
            law_milliseconds_are_kept(millis);
        }
    }
}

/// What an item of an answer is read to.
pub open spec fn order_of_item(instrument: Seq<char>, item: Seq<char>) -> Option<
    Order<Seq<char>, Open<Seq<char>>>,
> {
    match json_document(item) {
        Some(document) => open_order_in(instrument, document),
        None => None,
    }
}

/// Where every item of an answer is an order, the orders are the items, one for one and in order.
pub proof fn law_listed_orders_keep_their_order(instrument: Seq<char>, items: Seq<Seq<char>>)
    requires
        forall|i: int|
            0 <= i < items.len() ==> order_of_item(instrument, #[trigger] items[i]) is Some,
    ensures
        open_orders_in(instrument, items).len() == items.len(),
        forall|i: int|
            0 <= i < items.len() ==> Some(#[trigger] open_orders_in(instrument, items)[i])
                == order_of_item(instrument, items[i]),
    decreases items.len(),
{
    if items.len() > 0 {
        let front = items.drop_last();
        assert forall|i: int| 0 <= i < front.len() implies order_of_item(
            instrument,
            #[trigger] front[i],
        ) is Some by {
            assert(front[i] == items[i]);
        }
        law_listed_orders_keep_their_order(instrument, front);
        assert(order_of_item(instrument, items[items.len() - 1]) is Some);
        assert forall|i: int| 0 <= i < items.len() implies Some(
            #[trigger] open_orders_in(instrument, items)[i],
        ) == order_of_item(instrument, items[i]) by {
            if i < front.len() {
                assert(front[i] == items[i]);
                assert(open_orders_in(instrument, items)[i] == open_orders_in(
                    instrument,
                    front,
                )[i]);
            }
        }
    }
}

/// The member of a document with a name is the first that has it.
pub proof fn law_member_is_the_first_with_its_name(document: JsonView, name: Seq<char>)
    ensures
        match document.member(name) {
            Some(field) => field.name == name && exists|i: int|
                0 <= i < document.fields.len() && #[trigger] document.fields[i] == field && forall|
                    j: int,
                |
                    0 <= j < i ==> (#[trigger] document.fields[j]).name != name,
            None => forall|i: int|
                0 <= i < document.fields.len() ==> (#[trigger] document.fields[i]).name != name,
        },
{
    lemma_member_from(document, name, 0);
}

/// The member of a document with a name from a position on is the first there that has it.
proof fn lemma_member_from(document: JsonView, name: Seq<char>, position: int)
    requires
        0 <= position,
    ensures
        match member_from(document.fields, name, position) {
            Some(field) => field.name == name && exists|i: int|
                position <= i < document.fields.len() && #[trigger] document.fields[i] == field
                    && forall|j: int|
                    position <= j < i ==> (#[trigger] document.fields[j]).name != name,
            None => forall|i: int|
                position <= i < document.fields.len() ==> (#[trigger] document.fields[i]).name
                    != name,
        },
    decreases document.fields.len() - position,
{
    if position < document.fields.len() && document.fields[position].name != name {
        lemma_member_from(document, name, position + 1);
        if let Some(field) = member_from(document.fields, name, position + 1) {
            let i = choose|i: int|
                position + 1 <= i < document.fields.len() && #[trigger] document.fields[i] == field
                    && forall|j: int|
                    position + 1 <= j < i ==> (#[trigger] document.fields[j]).name != name;
            assert forall|j: int| position <= j < i implies (#[trigger] document.fields[j]).name
                != name by {}
        }
    } else if position < document.fields.len() {
        assert(document.fields[position] == member_from(document.fields, name, position)->0);
    }
}

/// What is read under a name is what the member of that name holds, as the type that is asked for.
pub proof fn law_values_are_read_from_their_member(document: JsonView, name: Seq<char>)
    ensures
        document.member(name) matches Some(field) ==> {
            &&& document.text(name) == field.text
            &&& document.unsigned(name) == field.unsigned
            &&& document.signed(name) == field.signed
            &&& document.flag(name) == field.flag
            &&& document.decimal(name) matches Some(number) ==> (field.text matches Some(text)
                && decimal_parse(text) == Some((number.digits(), number.places())))
            &&& field.text matches Some(text) ==> (decimal_parse(text) is Some
                <==> document.decimal(name) is Some)
        },
        document.member(name) is None ==> {
            &&& document.text(name) is None
            &&& document.unsigned(name) is None
            &&& document.signed(name) is None
            &&& document.flag(name) is None
            &&& document.decimal(name) is None
        },
{
    if let Some(text) = document.text(name) {
        if let Some(parts) = decimal_parse(text) {
            crate::decimal::lemma_parts_are_kept(parts.0, parts.1);
        }
    }
}

/// What an item of an answer is read to.
pub open spec fn trade_of_item(instrument: Seq<char>, item: Seq<char>) -> Option<Trade<Seq<char>>> {
    match json_document(item) {
        Some(document) => my_trade_in(instrument, document),
        None => None,
    }
}

/// Where every item of an answer is a trade, the trades are the items, one for one and in order.
pub proof fn law_listed_trades_keep_their_order(instrument: Seq<char>, items: Seq<Seq<char>>)
    requires
        forall|i: int|
            0 <= i < items.len() ==> trade_of_item(instrument, #[trigger] items[i]) is Some,
    ensures
        my_trades_in(instrument, items).len() == items.len(),
        forall|i: int|
            0 <= i < items.len() ==> Some(#[trigger] my_trades_in(instrument, items)[i])
                == trade_of_item(instrument, items[i]),
    decreases items.len(),
{
    if items.len() > 0 {
        let front = items.drop_last();
        assert forall|i: int| 0 <= i < front.len() implies trade_of_item(
            instrument,
            #[trigger] front[i],
        ) is Some by {
            assert(front[i] == items[i]);
        }
        law_listed_trades_keep_their_order(instrument, front);
        assert(trade_of_item(instrument, items[items.len() - 1]) is Some);
        assert forall|i: int| 0 <= i < items.len() implies Some(
            #[trigger] my_trades_in(instrument, items)[i],
        ) == trade_of_item(instrument, items[i]) by {
            if i < front.len() {
                assert(front[i] == items[i]);
                assert(my_trades_in(instrument, items)[i] == my_trades_in(instrument, front)[i]);
            }
        }
    }
}

/// What an item of an answer is read to.
pub open spec fn balance_of_item(
    assets: Seq<Seq<char>>,
    time: Timestamp,
    item: Seq<char>,
) -> Option<AssetBalance<Seq<char>>> {
    match json_document(item) {
        Some(document) => match balance_in(document, assets, time) {
            Some(Some(balance)) => Some(balance),
            _ => None,
        },
        None => None,
    }
}

/// Where every item of an answer is a balance that is asked for, the balances are the items, one
/// for one and in order.
pub proof fn law_listed_balances_keep_their_order(
    items: Seq<Seq<char>>,
    assets: Seq<Seq<char>>,
    time: Timestamp,
)
    requires
        forall|i: int|
            0 <= i < items.len() ==> balance_of_item(assets, time, #[trigger] items[i]) is Some,
    ensures
        balances_in(items, assets, time) matches Some(balances) && balances.len() == items.len()
            && forall|i: int|
            0 <= i < items.len() ==> Some(#[trigger] balances[i]) == balance_of_item(
                assets,
                time,
                items[i],
            ),
    decreases items.len(),
{
    if items.len() > 0 {
        let front = items.drop_last();
        assert forall|i: int| 0 <= i < front.len() implies balance_of_item(
            assets,
            time,
            #[trigger] front[i],
        ) is Some by {
            assert(front[i] == items[i]);
        }
        law_listed_balances_keep_their_order(front, assets, time);
        assert(balance_of_item(assets, time, items[items.len() - 1]) is Some);
        let before = balances_in(front, assets, time)->0;
        let balances = balances_in(items, assets, time)->0;
        assert forall|i: int| 0 <= i < items.len() implies Some(#[trigger] balances[i])
            == balance_of_item(assets, time, items[i]) by {
            if i < front.len() {
                assert(front[i] == items[i]);
                assert(balances[i] == before[i]);
            }
        }
    }
}

/// An item that is no order leaves the orders as they are, and one that is no trade the trades.
pub proof fn law_other_items_are_left_out(
    instrument: Seq<char>,
    items: Seq<Seq<char>>,
    item: Seq<char>,
)
    ensures
        order_of_item(instrument, item) is None ==> open_orders_in(instrument, items.push(item))
            == open_orders_in(instrument, items),
        trade_of_item(instrument, item) is None ==> my_trades_in(instrument, items.push(item))
            == my_trades_in(instrument, items),
{
    assert(items.push(item).drop_last() =~= items);
}

} // verus!
