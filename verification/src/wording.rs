//! What is written keeps its meaning: every part of a request stands under the name for it, and an
//! answer is taken for what it says.

use crate::binance::{
    cancel_terms, digits_value, hex_chars, hmac_sha256, open_terms, signed_address, signed_meaning,
    spelled_u32, tif_text, timed, trades_terms, user_data_meaning, weight_of, without_slashes,
    ClientError, Gate, LimiterView, Method, ParamView,
};
use crate::binance_messages::{side_of, strict_side_of};
use crate::decimal::decimal_text;
use crate::instrument::Side;
use crate::json::JsonView;
use crate::order::{ApiError, OrderEvent, RequestCancel, RequestOpen, TimeInForce};
use crate::rate_limit::WindowView;
use crate::text::number_chars;
use crate::time::{Duration, Instant, Timestamp};
use vstd::prelude::*;
use vstd::utf8::encode_utf8;

verus! {

/// The value stands under the name, and nothing else does.
pub open spec fn stands_under(params: Seq<ParamView>, name: Seq<char>, value: Seq<char>) -> bool {
    &&& exists|i: int| 0 <= i < params.len() && #[trigger] params[i] == (name, value)
    &&& forall|i: int|
        0 <= i < params.len() && (#[trigger] params[i]).0 == name ==> params[i].1 == value
}

/// Nothing stands under the name.
pub open spec fn nothing_under(params: Seq<ParamView>, name: Seq<char>) -> bool {
    forall|i: int| 0 <= i < params.len() ==> (#[trigger] params[i]).0 != name
}

/// The names of parameters are told apart.
proof fn lemma_names_differ()
    ensures
        "symbol"@.len() == 6,
        "side"@.len() == 4,
        "side"@[0] == 's',
        "type"@.len() == 4,
        "type"@[0] == 't',
        "quantity"@.len() == 8,
        "newClientOrderId"@.len() == 16,
        "price"@.len() == 5,
        "price"@[0] == 'p',
        "timeInForce"@.len() == 11,
        "origClientOrderId"@.len() == 17,
        "orderId"@.len() == 7,
        "startTime"@.len() == 9,
        "startTime"@[0] == 's',
        "limit"@.len() == 5,
        "limit"@[0] == 'l',
        "recvWindow"@.len() == 10,
        "timestamp"@.len() == 9,
        "timestamp"@[0] == 't',
        "BUY"@.len() == 3,
        "SELL"@.len() == 4,
        "MARKET"@.len() == 6,
        "LIMIT"@.len() == 5,
        "FOK"@.len() == 3,
        "FOK"@[0] == 'F',
        "IOC"@.len() == 3,
        "IOC"@[0] == 'I',
        "GTC"@.len() == 3,
        "GTC"@[0] == 'G',
{
    reveal_strlit("symbol");
    reveal_strlit("side");
    reveal_strlit("type");
    reveal_strlit("quantity");
    reveal_strlit("newClientOrderId");
    reveal_strlit("price");
    reveal_strlit("timeInForce");
    reveal_strlit("origClientOrderId");
    reveal_strlit("orderId");
    reveal_strlit("startTime");
    reveal_strlit("limit");
    reveal_strlit("recvWindow");
    reveal_strlit("timestamp");
    reveal_strlit("BUY");
    reveal_strlit("SELL");
    reveal_strlit("MARKET");
    reveal_strlit("LIMIT");
    reveal_strlit("FOK");
    reveal_strlit("IOC");
    reveal_strlit("GTC");
}

/// A request for a new order says what is asked for: under each name stands that part of the
/// request, and a price and a time in force only where the order has a limit.
pub proof fn law_open_request_says_what_is_asked(request: OrderEvent<Seq<char>, RequestOpen>)
    ensures
        ({
            let params = open_terms(request);
            &&& stands_under(params, "symbol"@, request.key.instrument)
            &&& stands_under(params, "side"@, "BUY"@) <==> request.state.side is Buy
            &&& stands_under(params, "side"@, "SELL"@) <==> request.state.side is Sell
            &&& stands_under(params, "type"@, "MARKET"@) <==> request.state.kind is Market
            &&& stands_under(params, "type"@, "LIMIT"@) <==> request.state.kind is Limit
            &&& request.state.quantity.digits() >= 0 ==> stands_under(
                params,
                "quantity"@,
                decimal_text(request.state.quantity.digits(), request.state.quantity.places()),
            )
            &&& stands_under(params, "newClientOrderId"@, request.key.cid)
            &&& request.state.kind is Limit ==> stands_under(
                params,
                "price"@,
                decimal_text(request.state.price.digits(), request.state.price.places()),
            )
            &&& request.state.kind is Market ==> nothing_under(params, "price"@) && nothing_under(
                params,
                "timeInForce"@,
            )
            &&& request.state.kind is Limit ==> {
                &&& stands_under(params, "timeInForce"@, "FOK"@)
                    <==> request.state.time_in_force is FillOrKill
                &&& stands_under(params, "timeInForce"@, "IOC"@)
                    <==> request.state.time_in_force is ImmediateOrCancel
                &&& stands_under(params, "timeInForce"@, "GTC"@) <==> (
                request.state.time_in_force is GoodUntilCancelled
                    || request.state.time_in_force is GoodUntilEndOfDay)
            }
        }),
{
    lemma_names_differ();
    let params = open_terms(request);
    assert(params[0] == ("symbol"@, request.key.instrument));
    assert(params[1].0 == "side"@);
    assert(params[2].0 == "type"@);
    assert(params[3].0 == "quantity"@);
    assert(params[4] == ("newClientOrderId"@, request.key.cid));
    if request.state.kind is Limit {
        assert(params.len() == 7);
        assert(params[5] == (
            "price"@,
            decimal_text(request.state.price.digits(), request.state.price.places()),
        ));
        assert(params[6].0 == "timeInForce"@);
    } else {
        assert(params.len() == 5);
    }
}

/// A request for a new order says the side that the reader of a report takes it for.
pub proof fn law_side_is_read_as_written(
    request: OrderEvent<Seq<char>, RequestOpen>,
    word: Seq<char>,
)
    requires
        stands_under(open_terms(request), "side"@, word),
    ensures
        strict_side_of(word) == Some(request.state.side),
        side_of(word) == request.state.side,
{
    lemma_names_differ();
    law_open_request_says_what_is_asked(request);
    assert(open_terms(request)[1].0 == "side"@);
    match request.state.side {
        Side::Buy => {
            assert(stands_under(open_terms(request), "side"@, "BUY"@));
        },
        Side::Sell => {
            assert(stands_under(open_terms(request), "side"@, "SELL"@));
        },
    }
}

/// A request to cancel an order names the order that is asked about, by its id too where it has
/// one.
pub proof fn law_cancel_request_names_the_order(
    request: OrderEvent<Seq<char>, RequestCancel<Seq<char>>>,
)
    ensures
        stands_under(cancel_terms(request), "symbol"@, request.key.instrument),
        stands_under(cancel_terms(request), "origClientOrderId"@, request.key.cid),
        match request.state.id {
            Some(id) => stands_under(cancel_terms(request), "orderId"@, id),
            None => nothing_under(cancel_terms(request), "orderId"@),
        },
{
    lemma_names_differ();
    let params = cancel_terms(request);
    assert(params[0] == ("symbol"@, request.key.instrument));
    assert(params[1] == ("origClientOrderId"@, request.key.cid));
    if let Some(id) = request.state.id {
        assert(params[2] == ("orderId"@, id));
    }
}

/// The text is that of the whole number.
pub open spec fn spells(text: Seq<char>, number: int) -> bool {
    if number < 0 {
        text.len() > 0 && text[0] == '-' && text.skip(1) == number_chars((-number) as nat)
    } else {
        text == number_chars(number as nat)
    }
}

/// A request for trades names the instrument and the millisecond from which on they are asked for:
/// the one in which the time lies.
pub proof fn law_trades_request_names_the_start(
    instrument: Seq<char>,
    time_since: Timestamp,
    millis: int,
)
    requires
        millis * 1_000_000 <= time_since.secs * 1_000_000_000 + time_since.nanos < (millis + 1)
            * 1_000_000,
    ensures
        stands_under(trades_terms(instrument, time_since), "symbol"@, instrument),
        exists|start: Seq<char>| #[trigger]
            stands_under(trades_terms(instrument, time_since), "startTime"@, start) && spells(
                start,
                millis,
            ),
        stands_under(trades_terms(instrument, time_since), "limit"@, "1000"@),
{
    lemma_names_differ();
    reveal_strlit("-");
    let params = trades_terms(instrument, time_since);
    assert(params[0] == ("symbol"@, instrument));
    assert(params[1].0 == "startTime"@);
    assert(params[2] == ("limit"@, "1000"@));
    let start = params[1].1;
    if millis < 0 {
        assert(start.skip(1) =~= number_chars((-millis) as nat));
    }
    assert(stands_under(params, "startTime"@, start) && spells(start, millis));
}

/// A signed request says what the request says, the window in which it is valid, and when it was
/// made, in this order.
pub proof fn law_signed_request_is_timed(
    params: Seq<ParamView>,
    recv_window_ms: u64,
    now_millis: i64,
)
    ensures
        ({
            let sent = timed(params, recv_window_ms, now_millis);
            &&& sent.len() == params.len() + 2
            &&& sent.take(params.len() as int) == params
            &&& sent[params.len() as int] == ("recvWindow"@, number_chars(recv_window_ms as nat))
            &&& sent[sent.len() - 1].0 == "timestamp"@
            &&& spells(sent[sent.len() - 1].1, now_millis as int)
        }),
{
    reveal_strlit("-");
    let sent = timed(params, recv_window_ms, now_millis);
    assert(sent.take(params.len() as int) =~= params);
    if now_millis < 0 {
        assert(sent[sent.len() - 1].1.skip(1) =~= number_chars((-now_millis) as nat));
    }
}

/// The address of a signed request is made of the base, the path, the query and the signature of
/// just that query with the secret.
pub proof fn law_signed_address_holds_its_signature(
    base: Seq<char>,
    path: Seq<char>,
    query: Seq<char>,
    secret: Seq<char>,
)
    ensures
        signed_address(base, path, query, secret) == without_slashes(base) + path + "?"@ + query
            + "&signature="@ + hex_chars(hmac_sha256(encode_utf8(secret), encode_utf8(query))),
{
}

/// The slashes at the end of a text are taken off, and nothing else.
pub proof fn law_slashes_are_taken_off(text: Seq<char>)
    ensures
        without_slashes(text).is_prefix_of(text),
        without_slashes(text).len() > 0 ==> without_slashes(text).last() != '/',
        forall|i: int| without_slashes(text).len() <= i < text.len() ==> #[trigger] text[i] == '/',
    decreases text.len(),
{
    if text.len() > 0 && text.last() == '/' {
        law_slashes_are_taken_off(text.drop_last());
        let front = text.drop_last();
        assert forall|i: int| without_slashes(text).len() <= i < text.len() implies
            #[trigger] text[i] == '/' by {
            if i < front.len() {
                assert(front[i] == '/');
            }
        }
    }
}

/// Only to read the account, its trades and its open orders weighs more than one.
pub proof fn law_weight_of_requests(method: Method, path: Seq<char>)
    ensures
        weight_of(method, path) == 20 <==> method is Get && (path == "/api/v3/account"@ || path
            == "/api/v3/myTrades"@),
        weight_of(method, path) == 6 <==> method is Get && path == "/api/v3/openOrders"@,
        weight_of(method, path) == 1 || weight_of(method, path) == 6 || weight_of(method, path)
            == 20,
{
    reveal_strlit("/api/v3/account");
    reveal_strlit("/api/v3/myTrades");
    reveal_strlit("/api/v3/openOrders");
    assert("/api/v3/account"@.len() == 15);
    assert("/api/v3/myTrades"@.len() == 16);
    assert("/api/v3/openOrders"@.len() == 18);
}

/// A time in force is written by one word for each that the exchange tells apart.
pub proof fn law_time_in_force_is_written(value: TimeInForce)
    ensures
        tif_text(value) == "FOK"@ <==> value is FillOrKill,
        tif_text(value) == "IOC"@ <==> value is ImmediateOrCancel,
        tif_text(value) == "GTC"@ <==> value is GoodUntilCancelled || value is GoodUntilEndOfDay,
{
    lemma_names_differ();
}

/// An answer to a signed request succeeds just where its status says so and it is a document, and
/// is then that document; a status of too many requests is taken for a rate limit; any other
/// failure carries the message of the exchange.
pub proof fn law_signed_answer_is_taken_for_what_it_says(
    status: u16,
    status_text: Seq<char>,
    document: Option<JsonView>,
)
    ensures
        signed_meaning(status, status_text, document) is Ok <==> 200 <= status <= 299
            && document is Some,
        signed_meaning(status, status_text, document) matches Ok(read) ==> document == Some(read),
        signed_meaning(status, status_text, document) == Err::<JsonView, ClientError<Seq<char>>>(
            ClientError::Api(ApiError::RateLimit),
        ) <==> document is Some && status == 429,
        document matches Some(read) && read.text("msg"@) is Some && status != 429 && !(200 <= status
            <= 299) ==> signed_meaning(status, status_text, document) == Err::<
            JsonView,
            ClientError<Seq<char>>,
        >(
            ClientError::Api(
                ApiError::OrderRejected("Binance API error: "@ + document->0.text("msg"@)->0),
            ),
        ),
{
}

/// An answer to a user data request succeeds just where its status says so and it is a document,
/// and is then that document; otherwise it carries the message of the exchange.
pub proof fn law_user_data_answer_is_taken_for_what_it_says(
    status: u16,
    document: Option<JsonView>,
)
    ensures
        user_data_meaning(status, document) is Ok <==> 200 <= status <= 299 && document is Some,
        user_data_meaning(status, document) matches Ok(read) ==> document == Some(read),
        document matches Some(read) && read.text("msg"@) is Some && !(200 <= status <= 299)
            ==> user_data_meaning(status, document) == Err::<JsonView, ClientError<Seq<char>>>(
            ClientError::Api(ApiError::OrderRejected(document->0.text("msg"@)->0)),
        ),
{
}

/// The number that characters stand for where they are decimal digits.
pub open spec fn value_of(text: Seq<char>) -> int
    decreases text.len(),
{
    if text.len() == 0 {
        0
    } else {
        10 * value_of(text.drop_last()) + (text.last() as int - 48)
    }
}

/// A number is written in decimal digits, with no zero before the others, and they stand for it.
pub proof fn law_number_is_written_in_digits(number: nat)
    ensures
        value_of(number_chars(number)) == number,
        number_chars(number).len() > 0,
        forall|i: int|
            0 <= i < number_chars(number).len() ==> 48 <= #[trigger] number_chars(number)[i] as int
                <= 57,
        number > 0 ==> number_chars(number)[0] != '0',
    decreases number,
{
    reveal_with_fuel(value_of, 2);
    if number >= 10 {
        law_number_is_written_in_digits(number / 10);
        let front = number_chars(number / 10);
        assert(number_chars(number).drop_last() =~= front);
        assert forall|i: int| 0 <= i < number_chars(number).len() implies 48 <= #[trigger]
            number_chars(number)[i] as int <= 57 by {
            if i < front.len() {
                assert(number_chars(number)[i] == front[i]);
            }
        }
        assert(number_chars(number)[0] == front[0]);
    } else {
        assert(number_chars(number).drop_last() =~= Seq::empty());
    }
}

/// Digits stand for one number.
proof fn lemma_digits_value(text: Seq<char>)
    requires
        forall|i: int| 0 <= i < text.len() ==> 48 <= #[trigger] text[i] as int <= 57,
    ensures
        digits_value(text) == value_of(text),
    decreases text.len(),
{
    if text.len() > 0 {
        let front = text.drop_last();
        assert forall|i: int| 0 <= i < front.len() implies 48 <= #[trigger] front[i] as int
            <= 57 by {
            assert(front[i] == text[i]);
        }
        lemma_digits_value(front);
        assert(48 <= text[text.len() - 1] as int <= 57);
    }
}

/// The weight that the exchange says is used is read as it is written, with or without a plus sign
/// before it; a number that is too large is none.
pub proof fn law_written_number_is_read(number: nat)
    ensures
        number <= u32::MAX ==> spelled_u32(number_chars(number)) == Some(number as u32),
        number <= u32::MAX ==> spelled_u32(seq!['+'] + number_chars(number)) == Some(number as u32),
        number > u32::MAX ==> spelled_u32(number_chars(number)) is None,
{
    let text = number_chars(number);
    law_number_is_written_in_digits(number);
    lemma_digits_value(text);
    assert(48 <= text[0] as int <= 57);
    assert((seq!['+'] + text).skip(1) =~= text);
    assert forall|i: int| 0 <= i < text.len() implies '0' <= #[trigger] text[i] <= '9' by {
        assert(48 <= text[i] as int <= 57);
    }
}

/// A text with a character that is no digit spells no number.
pub proof fn law_other_text_is_no_number(text: Seq<char>, i: int)
    requires
        0 <= i < text.len(),
        !(48 <= text[i] as int <= 57),
        i == 0 ==> text[0] != '+' || text.len() == 1,
    ensures
        spelled_u32(text) is None,
{
    if text[0] == '+' {
        let digits = text.skip(1);
        if i > 0 {
            assert(digits[i - 1] == text[i]);
        }
    }
}

/// A request uses its weight, at least one, where the limit allows it in the current interval, and
/// else waits for the rest of the interval with nothing used. An interval that is over is followed
/// by a new one in which nothing is used.
pub proof fn law_reservation_uses_its_weight(window: WindowView, weight: u32, now: Instant)
    ensures
        ({
            let (after, wait) = window.reserved(weight, now);
            let over = now.nanos >= window.start.nanos + window.window.nanos;
            let used = if over || window.window.nanos == 0 {
                0
            } else {
                window.used as int
            };
            let asked = if weight == 0 {
                1
            } else {
                weight as int
            };
            let start = if over || window.window.nanos == 0 {
                now.nanos
            } else {
                window.start.nanos
            };
            &&& after.limit == window.limit
            &&& after.window == window.window
            &&& after.start.nanos == start
            &&& if used + asked <= window.limit {
                after.used == used + asked && wait.nanos == 0
            } else {
                after.used == used && (now.nanos >= start ==> wait.nanos == start
                    + window.window.nanos - now.nanos)
            }
        }),
{
}

/// A request goes from its weight to the interval between two requests, then out, and waits where
/// it is told: for the rest of the interval of weight, or until the interval since the last request
/// is over. What goes out is the last request from then on.
pub proof fn law_request_goes_through_its_gates(limiter: LimiterView, weight: u32, now: Instant)
    ensures
        ({
            let (weighed, gate, wait) = limiter.step(Gate::Weigh, weight, now);
            &&& weighed.weights == limiter.weights.reserved(weight, now).0
            &&& weighed.interval == limiter.interval && weighed.last == limiter.last
            &&& wait matches Some(wait) ==> wait.nanos > 0 && gate is Refill
                && limiter.weights.reserved(weight, now).1 == wait
            &&& wait is None ==> gate is Pace && limiter.weights.reserved(weight, now).1.nanos == 0
        }),
        ({
            let (filled, gate, wait) = limiter.step(Gate::Refill, weight, now);
            &&& gate is Pace && wait is None
            &&& filled.weights.start == now && filled.weights.used == (if weight == 0 {
                1
            } else {
                weight
            })
            &&& filled.weights.limit == limiter.weights.limit && filled.weights.window
                == limiter.weights.window
            &&& filled.interval == limiter.interval && filled.last == limiter.last
        }),
        ({
            let (paced, gate, wait) = limiter.step(Gate::Pace, weight, now);
            &&& paced == limiter && gate is Make
            &&& now.nanos > limiter.last.nanos + limiter.interval.nanos ==> wait is None
            &&& limiter.last.nanos <= now.nanos <= limiter.last.nanos + limiter.interval.nanos
                ==> wait == Some(
                Duration {
                    nanos: (limiter.last.nanos + limiter.interval.nanos - now.nanos) as u128,
                },
            )
        }),
        limiter.step(Gate::Make, weight, now) == (
            LimiterView { weights: limiter.weights, interval: limiter.interval, last: now },
            Gate::Open,
            None::<Duration>,
        ),
{
}

/// An answer that fails without a message of the exchange says so, as does one that is no document.
pub proof fn law_answer_without_a_message_says_so(
    status: u16,
    status_text: Seq<char>,
    document: JsonView,
)
    requires
        !(200 <= status <= 299),
        document.text("msg"@) is None,
    ensures
        status != 429 ==> signed_meaning(status, status_text, Some(document)) == Err::<
            JsonView,
            ClientError<Seq<char>>,
        >(
            ClientError::Api(ApiError::OrderRejected("Binance API error: "@ + "request failed"@)),
        ),
        user_data_meaning(status, Some(document)) == Err::<JsonView, ClientError<Seq<char>>>(
            ClientError::Api(ApiError::OrderRejected("Binance user-data request failed"@)),
        ),
        signed_meaning(status, status_text, None) == Err::<JsonView, ClientError<Seq<char>>>(
            ClientError::Api(
                ApiError::OrderRejected(
                    "Binance returned non-JSON response ("@ + status_text + ")"@,
                ),
            ),
        ),
{
}

} // verus!
