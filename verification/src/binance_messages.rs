//! Messages of the Binance spot exchange, read into orders, trades and balances.

use crate::account::{AssetBalance, AssetFees, Balance, Trade};
use crate::binance::{api_error, api_failure, api_order_error, order_error, ClientError};
use crate::decimal::{decimal_parse, of_parts, Decimal};
use crate::exchange::Snapshot;
use crate::instrument::{ExchangeId, Side};
use crate::json::{json_document, Json, JsonView};
use crate::names::views;
use crate::order::{
    cancel_result_view, open_result_view, ActiveOrderState, ApiError, Cancelled, InactiveOrderState,
    Open, Order, OrderError, OrderEvent, OrderKey, OrderKind, OrderRequestCancel, OrderRequestOpen,
    OrderResponseCancel, OrderResponseOpen, OrderState, TimeInForce,
};
use crate::requests::{AccountEvent, AccountEventKind, EventKindView, EventView};
use crate::text::{number_chars, number_text, same_text};
use crate::time::{time_at, time_of_parts, Timestamp, NANOS_PER_MILLISECOND};
use vstd::prelude::*;

verus! {

/// The point in time so many milliseconds after the start of 1970, where it can be held.
pub open spec fn time_of_millis(millis: i64) -> Option<Timestamp> {
    time_of_parts(time_at(millis * NANOS_PER_MILLISECOND))
}

/// The point in time under the name, in milliseconds, where there is one.
pub open spec fn time_in(document: JsonView, name: Seq<char>) -> Option<Timestamp> {
    match document.signed(name) {
        Some(millis) => time_of_millis(millis),
        None => None,
    }
}

/// The point in time under the name, in milliseconds, where there is one.
fn get_time(document: &Json, name: &str) -> (result: Option<Timestamp>)
    ensures
        result == time_in(document@, name@),
{
    match document.get_signed(name) {
        Some(millis) => Timestamp::from_millis(millis),
        None => None,
    }
}

/// An id that is a natural number under the name, where there is one.
pub open spec fn id_in(document: JsonView, name: Seq<char>) -> Option<Seq<char>> {
    match document.unsigned(name) {
        Some(id) => Some(number_chars(id as nat)),
        None => None,
    }
}

/// An id that is a natural number under the name, where there is one.
fn get_id(document: &Json, name: &str) -> (result: Option<String>)
    ensures
        crate::order::text_view(result) == id_in(document@, name@),
{
    match document.get_unsigned(name) {
        Some(id) => Some(number_text(id)),
        None => None,
    }
}

/// The side that a word stands for: a sale, unless it is the word for a purchase.
pub open spec fn side_of(word: Seq<char>) -> Side {
    if word == "BUY"@ {
        Side::Buy
    } else {
        Side::Sell
    }
}

/// The side that a word stands for: a sale, unless it is the word for a purchase.
fn read_side(word: &str) -> (result: Side)
    ensures
        result == side_of(word@),
{
    if same_text(word, "BUY") {
        Side::Buy
    } else {
        Side::Sell
    }
}

/// The key of an order that the exchange reports.
pub open spec fn reported_key(instrument: Seq<char>, cid: Seq<char>) -> OrderKey<Seq<char>> {
    OrderKey { exchange: ExchangeId::BinanceSpot, instrument, strategy: "binance"@, cid }
}

/// The key of an order that the exchange reports.
fn build_reported_key(instrument: &str, cid: &str) -> (result: OrderKey<String>)
    ensures
        result@ == reported_key(instrument@, cid@),
{
    OrderKey {
        exchange: ExchangeId::BinanceSpot,
        instrument: instrument.to_owned(),
        strategy: "binance".to_owned(),
        cid: cid.to_owned(),
    }
}

/// The active order that a document reports, if it holds all that belongs to one.
pub open spec fn open_order_in(instrument: Seq<char>, document: JsonView) -> Option<
    Order<Seq<char>, Open<Seq<char>>>,
> {
    match (
        id_in(document, "orderId"@),
        document.text("side"@),
        document.decimal("price"@),
        document.decimal("origQty"@),
        document.decimal("executedQty"@),
        time_in(document, "time"@),
        document.text("clientOrderId"@),
        document.text("type"@),
    ) {
        (
            Some(id),
            Some(side),
            Some(price),
            Some(quantity),
            Some(filled_quantity),
            Some(time_exchange),
            Some(cid),
            Some(kind),
        ) => Some(
            Order {
                key: reported_key(instrument, cid),
                side: side_of(side),
                price,
                quantity,
                kind: if kind == "LIMIT"@ {
                    OrderKind::Limit
                } else {
                    OrderKind::Market
                },
                time_in_force: TimeInForce::GoodUntilCancelled { post_only: false },
                state: Open { id, time_exchange, filled_quantity },
            },
        ),
        _ => None,
    }
}

/// An order, where there is one, in the way contracts write it.
pub open spec fn order_view(order: Option<Order<String, Open<String>>>) -> Option<
    Order<Seq<char>, Open<Seq<char>>>,
> {
    match order {
        Some(order) => Some(order@),
        None => None,
    }
}

/// The active order that a document reports, if it holds all that belongs to one.
pub fn parse_open_order(instrument: &str, value: &Json) -> (result: Option<
    Order<String, Open<String>>,
>)
    ensures
        order_view(result) == open_order_in(instrument@, value@),
{
    let id = match get_id(value, "orderId") {
        Some(id) => id,
        None => return None,
    };
    let side = match value.get_text("side") {
        Some(side) => read_side(side),
        None => return None,
    };
    let price = match value.get_decimal("price") {
        Some(price) => price,
        None => return None,
    };
    let quantity = match value.get_decimal("origQty") {
        Some(quantity) => quantity,
        None => return None,
    };
    let filled_quantity = match value.get_decimal("executedQty") {
        Some(filled_quantity) => filled_quantity,
        None => return None,
    };
    let time_exchange = match get_time(value, "time") {
        Some(time_exchange) => time_exchange,
        None => return None,
    };
    let key = match value.get_text("clientOrderId") {
        Some(cid) => build_reported_key(instrument, cid),
        None => return None,
    };
    let kind = match value.get_text("type") {
        Some(kind) => if same_text(kind, "LIMIT") {
            OrderKind::Limit
        } else {
            OrderKind::Market
        },
        None => return None,
    };
    Some(
        Order {
            key,
            side,
            price,
            quantity,
            kind,
            time_in_force: TimeInForce::GoodUntilCancelled { post_only: false },
            state: Open { id, time_exchange, filled_quantity },
        },
    )
}

/// The active orders that items report, each read on its own.
pub open spec fn open_orders_in(instrument: Seq<char>, items: Seq<Seq<char>>) -> Seq<
    Order<Seq<char>, Open<Seq<char>>>,
>
    decreases items.len(),
{
    if items.len() == 0 {
        Seq::empty()
    } else {
        let before = open_orders_in(instrument, items.drop_last());
        match json_document(items.last()) {
            Some(document) => match open_order_in(instrument, document) {
                Some(order) => before.push(order),
                None => before,
            },
            None => before,
        }
    }
}

/// Orders or an error, in the way contracts write them.
pub open spec fn orders_view(
    result: Result<Vec<Order<String, Open<String>>>, ClientError<String>>,
) -> Result<Seq<Order<Seq<char>, Open<Seq<char>>>>, ClientError<Seq<char>>> {
    match result {
        Ok(orders) => Ok(views(orders@)),
        Err(error) => Err(error@),
    }
}

/// The active orders that an answer reports. What is no order of the instrument is left out.
pub fn parse_open_orders(instrument: &str, value: &Json) -> (result: Result<
    Vec<Order<String, Open<String>>>,
    ClientError<String>,
>)
    ensures
        orders_view(result) == (match value@.items {
            Some(items) => Ok(open_orders_in(instrument@, items)),
            None => Err(api_failure("Binance openOrders response was not an array"@)),
        }),
{
    let items = match &value.items {
        Some(items) => items,
        None => return Err(api_error("Binance openOrders response was not an array")),
    };
    let ghost texts = views(items@);
    assert(value@.items == Some(texts));
    let mut result: Vec<Order<String, Open<String>>> = Vec::new();
    let mut next: usize = 0;
    assert(texts.take(0) =~= Seq::empty());
    assert(views(result@) =~= Seq::empty());
    while next < items.len()
        invariant
            next <= items.len(),
            texts == views(items@),
            views(result@) == open_orders_in(instrument@, texts.take(next as int)),
        decreases items.len() - next,
    {
        assert(texts.take(next + 1).drop_last() =~= texts.take(next as int));
        assert(texts.take(next + 1).last() == items@[next as int]@);
        match Json::parse(items[next].as_str()) {
            Some(document) => match parse_open_order(instrument, &document) {
                Some(order) => {
                    let ghost before = result@;
                    result.push(order);
                    assert(views(result@) =~= views(before).push(order@));
                },
                None => {},
            },
            None => {},
        }
        next = next + 1;
    }
    assert(texts.take(next as int) =~= texts);
    Ok(result)
}

/// The trade of the account that a document reports, if it holds all that belongs to one.
pub open spec fn my_trade_in(instrument: Seq<char>, document: JsonView) -> Option<
    Trade<Seq<char>>,
> {
    match (
        id_in(document, "id"@),
        id_in(document, "orderId"@),
        document.decimal("price"@),
        document.decimal("qty"@),
        document.decimal("commission"@),
        time_in(document, "time"@),
        document.flag("isBuyer"@),
    ) {
        (
            Some(id),
            Some(order_id),
            Some(price),
            Some(quantity),
            Some(fees),
            Some(time_exchange),
            Some(is_buyer),
        ) => Some(
            Trade {
                id,
                order_id,
                instrument,
                strategy: "binance"@,
                time_exchange,
                side: if is_buyer {
                    Side::Buy
                } else {
                    Side::Sell
                },
                price,
                quantity,
                fees: AssetFees { fees },
            },
        ),
        _ => None,
    }
}

/// A trade, where there is one, in the way contracts write it.
pub open spec fn trade_view(trade: Option<Trade<String>>) -> Option<Trade<Seq<char>>> {
    match trade {
        Some(trade) => Some(trade@),
        None => None,
    }
}

/// The trade of the account that a document reports, if it holds all that belongs to one.
pub fn parse_my_trade(instrument: &str, value: &Json) -> (result: Option<Trade<String>>)
    ensures
        trade_view(result) == my_trade_in(instrument@, value@),
{
    let id = match get_id(value, "id") {
        Some(id) => id,
        None => return None,
    };
    let order_id = match get_id(value, "orderId") {
        Some(order_id) => order_id,
        None => return None,
    };
    let price = match value.get_decimal("price") {
        Some(price) => price,
        None => return None,
    };
    let quantity = match value.get_decimal("qty") {
        Some(quantity) => quantity,
        None => return None,
    };
    let fees = match value.get_decimal("commission") {
        Some(fees) => fees,
        None => return None,
    };
    let time_exchange = match get_time(value, "time") {
        Some(time_exchange) => time_exchange,
        None => return None,
    };
    let side = match value.get_flag("isBuyer") {
        Some(is_buyer) => if is_buyer {
            Side::Buy
        } else {
            Side::Sell
        },
        None => return None,
    };
    Some(
        Trade {
            id,
            order_id,
            instrument: instrument.to_owned(),
            strategy: "binance".to_owned(),
            time_exchange,
            side,
            price,
            quantity,
            fees: AssetFees { fees },
        },
    )
}

/// The trades that items report, each read on its own.
pub open spec fn my_trades_in(instrument: Seq<char>, items: Seq<Seq<char>>) -> Seq<
    Trade<Seq<char>>,
>
    decreases items.len(),
{
    if items.len() == 0 {
        Seq::empty()
    } else {
        let before = my_trades_in(instrument, items.drop_last());
        match json_document(items.last()) {
            Some(document) => match my_trade_in(instrument, document) {
                Some(trade) => before.push(trade),
                None => before,
            },
            None => before,
        }
    }
}

/// Trades or an error, in the way contracts write them.
pub open spec fn trades_view(result: Result<Vec<Trade<String>>, ClientError<String>>) -> Result<
    Seq<Trade<Seq<char>>>,
    ClientError<Seq<char>>,
> {
    match result {
        Ok(trades) => Ok(views(trades@)),
        Err(error) => Err(error@),
    }
}

/// The trades that an answer reports. What is no trade is left out.
pub fn parse_my_trades(instrument: &str, value: &Json) -> (result: Result<
    Vec<Trade<String>>,
    ClientError<String>,
>)
    ensures
        trades_view(result) == (match value@.items {
            Some(items) => Ok(my_trades_in(instrument@, items)),
            None => Err(api_failure("Binance myTrades response was not an array"@)),
        }),
{
    let items = match &value.items {
        Some(items) => items,
        None => return Err(api_error("Binance myTrades response was not an array")),
    };
    let ghost texts = views(items@);
    assert(value@.items == Some(texts));
    let mut result: Vec<Trade<String>> = Vec::new();
    let mut next: usize = 0;
    assert(texts.take(0) =~= Seq::empty());
    assert(views(result@) =~= Seq::empty());
    while next < items.len()
        invariant
            next <= items.len(),
            texts == views(items@),
            views(result@) == my_trades_in(instrument@, texts.take(next as int)),
        decreases items.len() - next,
    {
        assert(texts.take(next + 1).drop_last() =~= texts.take(next as int));
        assert(texts.take(next + 1).last() == items@[next as int]@);
        match Json::parse(items[next].as_str()) {
            Some(document) => match parse_my_trade(instrument, &document) {
                Some(trade) => {
                    let ghost before = result@;
                    result.push(trade);
                    assert(views(result@) =~= views(before).push(trade@));
                },
                None => {},
            },
            None => {},
        }
        next = next + 1;
    }
    assert(texts.take(next as int) =~= texts);
    Ok(result)
}

/// The balance is asked for: all are where no asset is named.
pub open spec fn wanted(assets: Seq<Seq<char>>, asset: Seq<char>) -> bool {
    assets.len() == 0 || assets.contains(asset)
}

/// The balance that a document reports, if it is asked for and the document holds all that
/// belongs to one: `None` outside where a number is out of range.
pub open spec fn balance_in(
    document: JsonView,
    assets: Seq<Seq<char>>,
    time: Timestamp,
) -> Option<Option<AssetBalance<Seq<char>>>> {
    match (document.text("asset"@), document.decimal("free"@), document.decimal("locked"@)) {
        (Some(asset), Some(free), Some(locked)) => if !wanted(assets, asset) {
            Some(None)
        } else {
            match free.plus(locked) {
                Some(total) => Some(
                    Some(
                        AssetBalance {
                            asset,
                            balance: Balance { total, free },
                            time_exchange: time,
                        },
                    ),
                ),
                None => None,
            }
        },
        _ => Some(None),
    }
}

/// Whether one of the names is the name.
fn is_wanted(assets: &Vec<String>, asset: &str) -> (result: bool)
    ensures
        result == wanted(views(assets@), asset@),
{
    if assets.len() == 0 {
        return true;
    }
    let mut next: usize = 0;
    while next < assets.len()
        invariant
            next <= assets.len(),
            assets.len() > 0,
            forall|i: int| 0 <= i < next ==> views(assets@)[i] != asset@,
        decreases assets.len() - next,
    {
        if same_text(assets[next].as_str(), asset) {
            assert(views(assets@)[next as int] == asset@);
            return true;
        }
        next = next + 1;
    }
    false
}

/// The balance that a document reports, if it is asked for: `None` outside where a number is out
/// of range.
pub fn parse_balance(value: &Json, assets: &Vec<String>, now: Timestamp) -> (result: Option<
    Option<AssetBalance<String>>,
>)
    ensures
        (match result {
            Some(balance) => Some(
                match balance {
                    Some(balance) => Some(balance@),
                    None => None,
                },
            ),
            None => None,
        }) == balance_in(value@, views(assets@), now),
{
    let asset = match value.get_text("asset") {
        Some(asset) => asset,
        None => return Some(None),
    };
    let free = match value.get_decimal("free") {
        Some(free) => free,
        None => return Some(None),
    };
    let locked = match value.get_decimal("locked") {
        Some(locked) => locked,
        None => return Some(None),
    };
    if !is_wanted(assets, asset) {
        return Some(None);
    }
    match free.checked_add(&locked) {
        Some(total) => Some(
            Some(
                AssetBalance {
                    asset: asset.to_owned(),
                    balance: Balance { total, free },
                    time_exchange: now,
                },
            ),
        ),
        None => None,
    }
}

/// The balances that items report, each read on its own: `None` where a number is out of range.
pub open spec fn balances_in(
    items: Seq<Seq<char>>,
    assets: Seq<Seq<char>>,
    time: Timestamp,
) -> Option<Seq<AssetBalance<Seq<char>>>>
    decreases items.len(),
{
    if items.len() == 0 {
        Some(Seq::empty())
    } else {
        match balances_in(items.drop_last(), assets, time) {
            None => None,
            Some(before) => match json_document(items.last()) {
                None => Some(before),
                Some(document) => match balance_in(document, assets, time) {
                    None => None,
                    Some(None) => Some(before),
                    Some(Some(balance)) => Some(before.push(balance)),
                },
            },
        }
    }
}

/// A number out of range in one item leaves nothing of all.
proof fn lemma_balances_in_prefix(
    items: Seq<Seq<char>>,
    assets: Seq<Seq<char>>,
    time: Timestamp,
    count: int,
)
    requires
        0 <= count <= items.len(),
        balances_in(items.take(count), assets, time) is None,
    ensures
        balances_in(items, assets, time) is None,
    decreases items.len(),
{
    if count == items.len() {
        assert(items.take(count) =~= items);
    } else {
        assert(items.drop_last().take(count) =~= items.take(count));
        lemma_balances_in_prefix(items.drop_last(), assets, time, count);
    }
}

/// Balances or an error, in the way contracts write them.
pub open spec fn balances_view(
    result: Result<Vec<AssetBalance<String>>, ClientError<String>>,
) -> Result<Seq<AssetBalance<Seq<char>>>, ClientError<Seq<char>>> {
    match result {
        Ok(balances) => Ok(views(balances@)),
        Err(error) => Err(error@),
    }
}

/// The balances that an answer reports, of those that are asked for: `None` where a number is
/// out of range. What is no balance is left out.
pub fn parse_balances(value: &Json, assets: &Vec<String>, now: Timestamp) -> (result: Option<
    Result<Vec<AssetBalance<String>>, ClientError<String>>,
>)
    ensures
        (match result {
            Some(balances) => Some(balances_view(balances)),
            None => None,
        }) == (match value@.list("balances"@) {
            None => Some(Err(api_failure("Binance account response omitted balances"@))),
            Some(items) => match balances_in(items, views(assets@), now) {
                Some(balances) => Some(Ok(balances)),
                None => None,
            },
        }),
{
    let items = match value.get_list("balances") {
        Some(items) => items,
        None => return Some(Err(api_error("Binance account response omitted balances"))),
    };
    let ghost texts = views(items@);
    assert(value@.list("balances"@) == Some(texts));
    let mut result: Vec<AssetBalance<String>> = Vec::new();
    let mut next: usize = 0;
    assert(texts.take(0) =~= Seq::empty());
    assert(views(result@) =~= Seq::empty());
    while next < items.len()
        invariant
            next <= items.len(),
            texts == views(items@),
            value@.list("balances"@) == Some(texts),
            balances_in(texts.take(next as int), views(assets@), now) == Some(views(result@)),
        decreases items.len() - next,
    {
        proof {
            assert(texts.take(next + 1).drop_last() =~= texts.take(next as int));
            assert(texts.take(next + 1).last() == items@[next as int]@);
            if balances_in(texts.take(next + 1), views(assets@), now) is None {
                lemma_balances_in_prefix(texts, views(assets@), now, next + 1);
            }
        }
        match Json::parse(items[next].as_str()) {
            Some(document) => match parse_balance(&document, assets, now) {
                Some(Some(balance)) => {
                    let ghost before = result@;
                    result.push(balance);
                    assert(views(result@) =~= views(before).push(balance@));
                },
                Some(None) => {},
                None => return None,
            },
            None => {},
        }
        next = next + 1;
    }
    assert(texts.take(next as int) =~= texts);
    Some(Ok(result))
}

/// The first of the points in time that a document reports, or when it came: the milliseconds
/// under one of two names.
pub open spec fn response_time(document: JsonView, now_millis: i64, now: Timestamp) -> Timestamp {
    let field = match document.member("transactTime"@) {
        Some(field) => Some(field),
        None => document.member("updateTime"@),
    };
    let millis = match field {
        Some(field) => match field.signed {
            Some(millis) => millis,
            None => now_millis,
        },
        None => now_millis,
    };
    match time_of_millis(millis) {
        Some(time) => time,
        None => now,
    }
}

/// The active order of an answer to a request for one, or why there is none.
pub open spec fn order_in_response(
    document: JsonView,
    now_millis: i64,
    now: Timestamp,
) -> Result<Open<Seq<char>>, OrderError<Seq<char>>> {
    let filled = match document.text("executedQty"@) {
        Some(text) => text,
        None => "0"@,
    };
    match (id_in(document, "orderId"@), of_parts(decimal_parse(filled))) {
        (None, _) => Err(
            OrderError::Rejected(ApiError::OrderRejected("Binance response omitted orderId"@)),
        ),
        (Some(_), None) => Err(
            OrderError::Rejected(ApiError::OrderRejected("invalid Binance executedQty"@)),
        ),
        (Some(id), Some(filled_quantity)) => Ok(
            Open { id, time_exchange: response_time(document, now_millis, now), filled_quantity },
        ),
    }
}

/// The active order of an answer to a request for one, or why there is none. Where the answer has
/// no time, it is the time when it came.
pub fn order_from_response(value: &Json, now_millis: i64, now: Timestamp) -> (result: Result<
    Open<String>,
    OrderError<String>,
>)
    ensures
        open_result_view(result) == order_in_response(value@, now_millis, now),
{
    let id = match get_id(value, "orderId") {
        Some(id) => id,
        None => return Err(api_order_error("Binance response omitted orderId")),
    };
    let text = match value.get_text("executedQty") {
        Some(text) => text,
        None => "0",
    };
    let filled_quantity = match Decimal::parse(text) {
        Some(filled_quantity) => filled_quantity,
        None => return Err(api_order_error("invalid Binance executedQty")),
    };
    let field = match value.get("transactTime") {
        Some(field) => Some(field),
        None => value.get("updateTime"),
    };
    let millis = match field {
        Some(field) => match field.signed {
            Some(millis) => millis,
            None => now_millis,
        },
        None => now_millis,
    };
    let time_exchange = match Timestamp::from_millis(millis) {
        Some(time_exchange) => time_exchange,
        None => now,
    };
    Ok(Open { id, time_exchange, filled_quantity })
}

/// The answer to a request for a new order.
pub fn open_response(
    request: &OrderRequestOpen,
    answer: Result<Json, ClientError<String>>,
    now_millis: i64,
    now: Timestamp,
) -> (result: OrderResponseOpen)
    ensures
        result.key@ == request.key@,
        result.side == request.state.side,
        result.price == request.state.price,
        result.quantity == request.state.quantity,
        result.kind == request.state.kind,
        result.time_in_force == request.state.time_in_force,
        open_result_view(result.state) == (match answer {
            Ok(document) => order_in_response(document@, now_millis, now),
            Err(ClientError::Connectivity(error)) => Err(OrderError::Connectivity(error@)),
            Err(ClientError::Api(error)) => Err(OrderError::Rejected(error@)),
        }),
{
    let state = match answer {
        Ok(document) => order_from_response(&document, now_millis, now),
        Err(error) => Err(order_error(error)),
    };
    Order {
        key: request.key.clone(),
        side: request.state.side,
        price: request.state.price,
        quantity: request.state.quantity,
        kind: request.state.kind,
        time_in_force: request.state.time_in_force,
        state,
    }
}

/// The answer to a request to cancel an order.
pub fn cancel_response(
    request: &OrderRequestCancel,
    answer: Result<Json, ClientError<String>>,
    now: Timestamp,
) -> (result: OrderResponseCancel)
    ensures
        result.key@ == request.key@,
        cancel_result_view(result.state) == (match answer {
            Ok(document) => match id_in(document@, "orderId"@) {
                Some(id) => Ok(Cancelled { id, time_exchange: now }),
                None => Err(
                    OrderError::Rejected(
                        ApiError::OrderRejected("Binance cancel response omitted orderId"@),
                    ),
                ),
            },
            Err(ClientError::Connectivity(error)) => Err(OrderError::Connectivity(error@)),
            Err(ClientError::Api(error)) => Err(OrderError::Rejected(error@)),
        }),
{
    let state = match answer {
        Ok(document) => match get_id(&document, "orderId") {
            Some(id) => Ok(Cancelled { id, time_exchange: now }),
            None => Err(api_order_error("Binance cancel response omitted orderId")),
        },
        Err(error) => Err(order_error(error)),
    };
    OrderEvent { key: request.key.clone(), state }
}

/// The milliseconds under the name, or the time when the document came.
pub open spec fn millis_or_now(document: JsonView, name: Seq<char>, now_millis: i64) -> i64 {
    match document.signed(name) {
        Some(millis) => millis,
        None => now_millis,
    }
}

/// The document reports an execution or another change of an order.
pub open spec fn is_execution_report(document: JsonView) -> bool {
    document.text("e"@) == Some("executionReport"@)
}

/// Whether the document reports an execution or another change of an order.
fn reports_execution(document: &Json) -> (result: bool)
    ensures
        result == is_execution_report(document@),
{
    match document.get_text("e") {
        Some(kind) => same_text(kind, "executionReport"),
        None => false,
    }
}

/// The trade that a report of the stream of user data holds, if it holds one: something was
/// executed, and the report holds all that belongs to a trade.
pub open spec fn trade_in_report(document: JsonView, now_millis: i64) -> Option<Trade<Seq<char>>> {
    match (
        document.decimal("l"@),
        document.decimal("L"@),
        document.decimal("n"@),
        id_in(document, "t"@),
        id_in(document, "i"@),
        document.text("s"@),
        time_of_millis(millis_or_now(document, "T"@, now_millis)),
        document.text("S"@),
    ) {
        (
            Some(quantity),
            Some(price),
            Some(fees),
            Some(id),
            Some(order_id),
            Some(instrument),
            Some(time_exchange),
            Some(side),
        ) => if is_execution_report(document) && quantity.digits() != 0 {
            Some(
                Trade {
                    id,
                    order_id,
                    instrument,
                    strategy: "binance"@,
                    time_exchange,
                    side: side_of(side),
                    price,
                    quantity,
                    fees: AssetFees { fees },
                },
            )
        } else {
            None
        },
        _ => None,
    }
}

/// An event, where there is one, in the way contracts write it.
pub open spec fn event_view(event: Option<AccountEvent>) -> Option<EventView> {
    match event {
        Some(event) => Some(event@),
        None => None,
    }
}

/// The trade that a report of the stream of user data holds, if it holds one.
pub fn parse_user_data_trade(value: &Json, now_millis: i64) -> (result: Option<AccountEvent>)
    ensures
        event_view(result) == (match trade_in_report(value@, now_millis) {
            Some(trade) => Some(
                EventView {
                    exchange: ExchangeId::BinanceSpot,
                    kind: EventKindView::Trade(trade),
                },
            ),
            None => None,
        }),
{
    if !reports_execution(value) {
        return None;
    }
    let quantity = match value.get_decimal("l") {
        Some(quantity) => quantity,
        None => return None,
    };
    if quantity.is_zero() {
        return None;
    }
    let price = match value.get_decimal("L") {
        Some(price) => price,
        None => return None,
    };
    let fees = match value.get_decimal("n") {
        Some(fees) => fees,
        None => return None,
    };
    let millis = match value.get_signed("T") {
        Some(millis) => millis,
        None => now_millis,
    };
    let id = match get_id(value, "t") {
        Some(id) => id,
        None => return None,
    };
    let order_id = match get_id(value, "i") {
        Some(order_id) => order_id,
        None => return None,
    };
    let instrument = match value.get_text("s") {
        Some(instrument) => instrument.to_owned(),
        None => return None,
    };
    let time_exchange = match Timestamp::from_millis(millis) {
        Some(time_exchange) => time_exchange,
        None => return None,
    };
    let side = match value.get_text("S") {
        Some(side) => read_side(side),
        None => return None,
    };
    Some(
        AccountEvent {
            exchange: ExchangeId::BinanceSpot,
            kind: AccountEventKind::Trade(
                Trade {
                    id,
                    order_id,
                    instrument,
                    strategy: "binance".to_owned(),
                    time_exchange,
                    side,
                    price,
                    quantity,
                    fees: AssetFees { fees },
                },
            ),
        },
    )
}

/// The side that a word stands for, if it is one of the two words.
pub open spec fn strict_side_of(word: Seq<char>) -> Option<Side> {
    if word == "BUY"@ {
        Some(Side::Buy)
    } else if word == "SELL"@ {
        Some(Side::Sell)
    } else {
        None
    }
}

/// The state that a word stands for.
pub open spec fn reported_state(
    word: Option<Seq<char>>,
    id: Seq<char>,
    time_exchange: Timestamp,
    filled_quantity: Decimal,
) -> OrderState<Seq<char>> {
    if word == Some("CANCELED"@) || word == Some("EXPIRED"@) || word == Some("REJECTED"@) {
        OrderState::Inactive(InactiveOrderState::Cancelled(Cancelled { id, time_exchange }))
    } else if word == Some("FILLED"@) {
        OrderState::Inactive(InactiveOrderState::FullyFilled)
    } else {
        OrderState::Active(ActiveOrderState::Open(Open { id, time_exchange, filled_quantity }))
    }
}

/// The state that a word stands for.
fn read_state(
    word: Option<&str>,
    id: String,
    time_exchange: Timestamp,
    filled_quantity: Decimal,
) -> (result: OrderState<String>)
    ensures
        result@ == reported_state(
            crate::json::str_view(word),
            id@,
            time_exchange,
            filled_quantity,
        ),
{
    match word {
        Some(word) => if same_text(word, "CANCELED") || same_text(word, "EXPIRED") || same_text(
            word,
            "REJECTED",
        ) {
            OrderState::Inactive(InactiveOrderState::Cancelled(Cancelled { id, time_exchange }))
        } else if same_text(word, "FILLED") {
            OrderState::Inactive(InactiveOrderState::FullyFilled)
        } else {
            OrderState::Active(
                ActiveOrderState::Open(Open { id, time_exchange, filled_quantity }),
            )
        },
        None => OrderState::Active(
            ActiveOrderState::Open(Open { id, time_exchange, filled_quantity }),
        ),
    }
}

/// The order that a report of the stream of user data holds, if it holds all that belongs to one.
pub open spec fn order_in_report(
    document: JsonView,
    now_millis: i64,
    now: Timestamp,
) -> Option<Order<Seq<char>, OrderState<Seq<char>>>> {
    match (
        document.text("s"@),
        id_in(document, "orderId"@),
        document.text("c"@),
        document.text("S"@),
        document.decimal("p"@),
        document.decimal("q"@),
        document.decimal("z"@),
    ) {
        (
            Some(instrument),
            Some(id),
            Some(cid),
            Some(side),
            Some(price),
            Some(quantity),
            Some(executed),
        ) => match strict_side_of(side) {
            Some(side) => if is_execution_report(document) {
                let time_exchange = match time_of_millis(
                    millis_or_now(document, "T"@, now_millis),
                ) {
                    Some(time_exchange) => time_exchange,
                    None => now,
                };
                Some(
                    Order {
                        key: reported_key(instrument, cid),
                        side,
                        price,
                        quantity,
                        kind: if document.text("o"@) == Some("MARKET"@) {
                            OrderKind::Market
                        } else {
                            OrderKind::Limit
                        },
                        time_in_force: TimeInForce::GoodUntilCancelled { post_only: false },
                        state: reported_state(document.text("X"@), id, time_exchange, executed),
                    },
                )
            } else {
                None
            },
            None => None,
        },
        _ => None,
    }
}

/// The order that a report of the stream of user data holds, if it holds one.
pub fn parse_user_data_order(value: &Json, now_millis: i64, now: Timestamp) -> (result: Option<
    AccountEvent,
>)
    ensures
        event_view(result) == (match order_in_report(value@, now_millis, now) {
            Some(order) => Some(
                EventView {
                    exchange: ExchangeId::BinanceSpot,
                    kind: EventKindView::Order(order),
                },
            ),
            None => None,
        }),
{
    if !reports_execution(value) {
        return None;
    }
    let instrument = match value.get_text("s") {
        Some(instrument) => instrument,
        None => return None,
    };
    let id = match get_id(value, "orderId") {
        Some(id) => id,
        None => return None,
    };
    let cid = match value.get_text("c") {
        Some(cid) => cid,
        None => return None,
    };
    let side = match value.get_text("S") {
        Some(side) => if same_text(side, "BUY") {
            Side::Buy
        } else if same_text(side, "SELL") {
            Side::Sell
        } else {
            return None;
        },
        None => return None,
    };
    let price = match value.get_decimal("p") {
        Some(price) => price,
        None => return None,
    };
    let quantity = match value.get_decimal("q") {
        Some(quantity) => quantity,
        None => return None,
    };
    let executed = match value.get_decimal("z") {
        Some(executed) => executed,
        None => return None,
    };
    let millis = match value.get_signed("T") {
        Some(millis) => millis,
        None => now_millis,
    };
    let time_exchange = match Timestamp::from_millis(millis) {
        Some(time_exchange) => time_exchange,
        None => now,
    };
    let kind = match value.get_text("o") {
        Some(kind) => if same_text(kind, "MARKET") {
            OrderKind::Market
        } else {
            OrderKind::Limit
        },
        None => OrderKind::Limit,
    };
    let state = read_state(value.get_text("X"), id, time_exchange, executed);
    Some(
        AccountEvent {
            exchange: ExchangeId::BinanceSpot,
            kind: AccountEventKind::OrderSnapshot(
                Snapshot(
                    Order {
                        key: build_reported_key(instrument, cid),
                        side,
                        price,
                        quantity,
                        kind,
                        time_in_force: TimeInForce::GoodUntilCancelled { post_only: false },
                        state,
                    },
                ),
            ),
        },
    )
}

} // verus!
