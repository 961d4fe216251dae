use barter::account::{AccountSnapshot, AssetFees};
use barter::binance::{
    cancel_order_params, connectivity_error, credentials, listen_key, my_trades_params,
    open_order_params, order_error, read_signed, read_user_data, request_weight, sign_query,
    signed_url, tif, user_data_url, BinanceSpotConfig, ClientError, Gate, Method, RequestLimiter,
    Symbols,
};
use barter::binance_messages::{
    cancel_response, open_response, order_from_response, parse_balances, parse_my_trades,
    parse_open_orders, parse_user_data_order, parse_user_data_trade,
};
use barter::binance_stream::{AccountStream, StreamAction, StreamInput};
use barter::decimal::Decimal;
use barter::instrument::{ExchangeId, Side};
use barter::json::Json;
use barter::order::{
    ActiveOrderState, ApiError, ConnectivityError, InactiveOrderState, OrderError, OrderEvent,
    OrderKey, OrderKind, OrderRequestOpen, OrderState, RequestCancel, RequestOpen, TimeInForce,
};
use barter::requests::AccountEventKind;
use barter::time::{Duration, Instant, Timestamp};

fn d(value: i64) -> Decimal {
    Decimal::from(value)
}

fn at(secs: i64) -> Timestamp {
    Timestamp { secs, nanos: 0 }
}

fn millis(millis: u128) -> Instant {
    Instant {
        nanos: millis * 1_000_000,
    }
}

fn json(text: &str) -> Json {
    Json::parse(text).unwrap()
}

fn api(message: &str) -> ClientError<String> {
    ClientError::Api(ApiError::OrderRejected(message.to_string()))
}

#[test]
fn config_defaults_reference_environment_only() {
    let config = BinanceSpotConfig::default();
    assert_eq!(config.api_base_url, "https://api.binance.com");
    assert_eq!(config.stream_base_url, "wss://stream.binance.com:9443");
    assert_eq!(config.api_key_env, "BINANCE_API_KEY");
    assert_eq!(config.api_secret_env, "BINANCE_API_SECRET");
    assert_eq!(config.recv_window_ms, 5_000);
    assert_eq!(config.rate_limit_ms, 50);
    assert_eq!(config.weight_limit_per_minute, 1_200);
    assert!(config.instruments.is_empty());
}

#[test]
fn testnet_config_changes_endpoint_without_embedding_credentials() {
    let config = BinanceSpotConfig::testnet();
    assert_eq!(config.api_base_url, "https://testnet.binance.vision");
    assert_eq!(
        config.stream_base_url,
        "wss://stream.testnet.binance.vision"
    );
    assert_eq!(config.api_key_env, "BINANCE_API_KEY");
    assert_eq!(config.api_secret_env, "BINANCE_API_SECRET");
}

#[test]
fn execution_report_fill_is_translated_to_trade() {
    let value = json(
        r#"{"e": "executionReport", "s": "BTCUSDT", "i": 7, "t": 8,
            "S": "BUY", "L": "100", "l": "1", "n": "0.1", "T": 1}"#,
    );
    let event = parse_user_data_trade(&value, 0).unwrap();
    assert!(matches!(event.kind, AccountEventKind::Trade(_)));
}

#[test]
fn execution_report_is_translated_to_order_snapshot() {
    let value = json(
        r#"{"e": "executionReport", "s": "BTCUSDT", "orderId": 7,
            "c": "client-7", "S": "BUY", "p": "100", "q": "2", "z": "1",
            "T": 1, "X": "PARTIALLY_FILLED", "o": "LIMIT"}"#,
    );
    let event = parse_user_data_order(&value, 0, at(0)).unwrap();
    assert!(matches!(event.kind, AccountEventKind::OrderSnapshot(_)));
}

#[test]
fn signing_is_deterministic_and_sha256_length() {
    let first = sign_query("symbol=BTCUSDT&timestamp=1", "secret").unwrap();
    let second = sign_query("symbol=BTCUSDT&timestamp=1", "secret").unwrap();
    assert_eq!(first, second);
    assert_eq!(first.len(), 64);
}

#[test]
fn signatures_are_those_of_the_published_test_vector() {
    assert_eq!(
        sign_query("what do ya want for nothing?", "Jefe").unwrap(),
        "5bdcc146bf60754e6a042426089575c75a003f089d2739839dec58b964ec3843"
    );
}

#[test]
fn reported_trades_hold_what_was_executed() {
    let text = r#"{"e": "executionReport", "s": "BTCUSDT", "i": 7, "t": 8,
        "S": "SELL", "L": "100.5", "l": "1", "n": "0.1"}"#;
    let event = parse_user_data_trade(&json(text), 1_500).unwrap();
    assert_eq!(event.exchange, ExchangeId::BinanceSpot);
    let AccountEventKind::Trade(trade) = event.kind else {
        panic!("expected a trade");
    };
    assert_eq!(trade.id, "8");
    assert_eq!(trade.order_id, "7");
    assert_eq!(trade.instrument, "BTCUSDT");
    assert_eq!(trade.strategy, "binance");
    assert_eq!(trade.side, Side::Sell);
    assert_eq!(trade.price, Decimal::new(1005, 1));
    assert_eq!(trade.fees, AssetFees { fees: Decimal::new(1, 1) });
    assert_eq!(
        trade.time_exchange,
        Timestamp {
            secs: 1,
            nanos: 500_000_000,
        }
    );
    let nothing = text.replace(r#""l": "1""#, r#""l": "0.000""#);
    assert_eq!(parse_user_data_trade(&json(&nothing), 0), None);
    let other = text.replace("executionReport", "balanceUpdate");
    assert_eq!(parse_user_data_trade(&json(&other), 0), None);
    let missing = text.replace(r#""i": 7,"#, "");
    assert_eq!(parse_user_data_trade(&json(&missing), 0), None);
}

#[test]
fn reported_orders_have_the_state_that_the_word_stands_for() {
    let report = |state: &str| {
        let text = format!(
            r#"{{"e": "executionReport", "s": "BTCUSDT", "orderId": 7, "c": "client-7",
                "S": "SELL", "p": "100", "q": "2", "z": "1", "T": 2000, "X": "{state}",
                "o": "MARKET"}}"#
        );
        let event = parse_user_data_order(&json(&text), 0, at(0)).unwrap();
        let AccountEventKind::OrderSnapshot(order) = event.kind else {
            panic!("expected an order");
        };
        order.0
    };
    let order = report("NEW");
    assert_eq!(order.key.cid, "client-7");
    assert_eq!(order.kind, OrderKind::Market);
    assert_eq!(order.side, Side::Sell);
    assert!(matches!(
        order.state,
        OrderState::Active(ActiveOrderState::Open(open))
            if open.filled_quantity == d(1) && open.time_exchange == at(2)
    ));
    for word in ["CANCELED", "EXPIRED", "REJECTED"] {
        assert!(matches!(
            report(word).state,
            OrderState::Inactive(InactiveOrderState::Cancelled(cancelled)) if cancelled.id == "7"
        ));
    }
    assert_eq!(
        report("FILLED").state,
        OrderState::Inactive(InactiveOrderState::FullyFilled)
    );
    let unknown_side = r#"{"e": "executionReport", "s": "BTCUSDT", "orderId": 7, "c": "client-7",
        "S": "HOLD", "p": "100", "q": "2", "z": "1"}"#;
    assert_eq!(parse_user_data_order(&json(unknown_side), 0, at(0)), None);
}

#[test]
fn my_trades_are_mapped_and_others_left_out() {
    let body = r#"[{"id":8,"orderId":7,"price":"100","qty":"1","commission":"0.1","time":1,"isBuyer":true},
        {"id":"9","orderId":7,"price":"100","qty":"1","commission":"0.1","time":1,"isBuyer":true},
        17]"#;
    let trades = parse_my_trades("BTCUSDT", &json(body)).unwrap();
    assert_eq!(trades.len(), 1);
    assert_eq!(trades[0].quantity, d(1));
    assert_eq!(trades[0].side, Side::Buy);
    assert_eq!(
        parse_my_trades("BTCUSDT", &json("{}")),
        Err(api("Binance myTrades response was not an array"))
    );
}

#[test]
fn open_orders_are_mapped_and_others_left_out() {
    let body = r#"[{"orderId":7,"side":"BUY","price":"100","origQty":"2","executedQty":"0.5",
        "time":3000,"clientOrderId":"client-7","type":"LIMIT"}, {"orderId":8}]"#;
    let orders = parse_open_orders("BTCUSDT", &json(body)).unwrap();
    assert_eq!(orders.len(), 1);
    assert_eq!(orders[0].state.id, "7");
    assert_eq!(orders[0].state.filled_quantity, Decimal::new(5, 1));
    assert_eq!(orders[0].state.time_exchange, at(3));
    assert_eq!(orders[0].key.exchange, ExchangeId::BinanceSpot);
    assert_eq!(orders[0].kind, OrderKind::Limit);
    assert_eq!(
        parse_open_orders("BTCUSDT", &json("7")),
        Err(api("Binance openOrders response was not an array"))
    );
}

#[test]
fn balances_are_mapped_for_the_assets_asked_for() {
    let body = r#"{"balances":[{"asset":"BTC","free":"1.5","locked":"0.5"},
        {"asset":"ETH","free":"2","locked":"0"},{"asset":"ADA","free":"x","locked":"0"}]}"#;
    let all = parse_balances(&json(body), &vec![], at(4)).unwrap().unwrap();
    assert_eq!(all.len(), 2);
    assert_eq!(all[0].balance.total, d(2));
    assert_eq!(all[0].balance.free, Decimal::new(15, 1));
    assert_eq!(all[0].time_exchange, at(4));
    let some = parse_balances(&json(body), &vec!["ETH".to_string()], at(4))
        .unwrap()
        .unwrap();
    assert_eq!(some.len(), 1);
    assert_eq!(some[0].asset, "ETH");
    assert_eq!(
        parse_balances(&json("{}"), &vec![], at(4)),
        Some(Err(api("Binance account response omitted balances")))
    );
    let huge = r#"{"balances":[{"asset":"BTC","free":"79228162514264337593543950335",
        "locked":"79228162514264337593543950335"}]}"#;
    assert_eq!(parse_balances(&json(huge), &vec![], at(4)), None);
}

#[test]
fn opened_orders_are_read_from_the_answer() {
    let open = order_from_response(
        &json(r#"{"orderId":7,"executedQty":"0.25","transactTime":2000}"#),
        0,
        at(9),
    )
    .unwrap();
    assert_eq!(open.id, "7");
    assert_eq!(open.filled_quantity, Decimal::new(25, 2));
    assert_eq!(open.time_exchange, at(2));
    let plain = order_from_response(&json(r#"{"orderId":7,"updateTime":3000}"#), 0, at(9)).unwrap();
    assert_eq!(plain.filled_quantity, Decimal::zero());
    assert_eq!(plain.time_exchange, at(3));
    let late = order_from_response(&json(r#"{"orderId":7}"#), 5_000, at(9)).unwrap();
    assert_eq!(late.time_exchange, at(5));
    let never = order_from_response(
        &json(r#"{"orderId":7,"transactTime":9223372036854775807}"#),
        5_000,
        at(9),
    )
    .unwrap();
    assert_eq!(never.time_exchange, at(9));
    let rejected = |message: &str| {
        Err(OrderError::Rejected(ApiError::OrderRejected(
            message.to_string(),
        )))
    };
    assert_eq!(
        order_from_response(&json(r#"{"executedQty":"1"}"#), 0, at(9)),
        rejected("Binance response omitted orderId")
    );
    assert_eq!(
        order_from_response(&json(r#"{"orderId":7,"executedQty":"much"}"#), 0, at(9)),
        rejected("invalid Binance executedQty")
    );
}

fn key() -> OrderKey<String> {
    OrderKey {
        exchange: ExchangeId::BinanceSpot,
        instrument: "BTCUSDT".to_string(),
        strategy: "live".to_string(),
        cid: "client 7/8".to_string(),
    }
}

fn open_request(kind: OrderKind) -> OrderRequestOpen {
    OrderEvent {
        key: key(),
        state: RequestOpen {
            side: Side::Buy,
            price: Decimal::new(10_050, 2),
            quantity: Decimal::new(-15, 1),
            kind,
            time_in_force: TimeInForce::ImmediateOrCancel,
        },
    }
}

fn pairs(params: &[(&str, &str)]) -> Vec<(String, String)> {
    params
        .iter()
        .map(|(name, value)| (name.to_string(), value.to_string()))
        .collect()
}

#[test]
fn requests_have_the_parameters_of_the_exchange() {
    assert_eq!(
        open_order_params(&open_request(OrderKind::Limit)),
        pairs(&[
            ("symbol", "BTCUSDT"),
            ("side", "BUY"),
            ("type", "LIMIT"),
            ("quantity", "1.5"),
            ("newClientOrderId", "client 7/8"),
            ("price", "100.50"),
            ("timeInForce", "IOC"),
        ])
    );
    assert_eq!(open_order_params(&open_request(OrderKind::Market)).len(), 5);
    let cancel = |id| OrderEvent {
        key: key(),
        state: RequestCancel { id },
    };
    assert_eq!(
        cancel_order_params(&cancel(Some("7".to_string()))),
        pairs(&[
            ("symbol", "BTCUSDT"),
            ("origClientOrderId", "client 7/8"),
            ("orderId", "7"),
        ])
    );
    assert_eq!(cancel_order_params(&cancel(None)).len(), 2);
    assert_eq!(
        my_trades_params(
            "BTCUSDT",
            Timestamp {
                secs: -2,
                nanos: 999_999_999,
            }
        ),
        pairs(&[
            ("symbol", "BTCUSDT"),
            ("startTime", "-1001"),
            ("limit", "1000"),
        ])
    );
    assert_eq!(tif(TimeInForce::FillOrKill), "FOK");
    assert_eq!(tif(TimeInForce::GoodUntilEndOfDay), "GTC");
}

#[test]
fn signed_addresses_hold_the_encoded_query_and_its_signature() {
    let config = BinanceSpotConfig {
        api_base_url: "https://example.test//".to_string(),
        recv_window_ms: 60,
        ..Default::default()
    };
    let url = signed_url(
        &config,
        "/api/v3/order",
        pairs(&[("newClientOrderId", "a b/\u{e4}*-._~")]),
        1_700,
        "secret",
    )
    .unwrap();
    let query = "newClientOrderId=a+b%2F%C3%A4*-._%7E&recvWindow=60&timestamp=1700";
    let signature = sign_query(query, "secret").unwrap();
    assert_eq!(
        url,
        format!("https://example.test/api/v3/order?{query}&signature={signature}")
    );
    assert_eq!(
        user_data_url(&BinanceSpotConfig::default()),
        "https://api.binance.com/api/v3/userDataStream"
    );
}

#[test]
fn answers_are_told_apart_by_status_and_content() {
    assert!(read_signed(200, "200 OK", "{}").is_ok());
    assert_eq!(
        read_signed(502, "502 Bad Gateway", "<html>"),
        Err(api("Binance returned non-JSON response (502 Bad Gateway)"))
    );
    assert_eq!(
        read_signed(429, "429 Too Many Requests", "{}"),
        Err(ClientError::Api(ApiError::RateLimit))
    );
    assert_eq!(
        read_signed(400, "400 Bad Request", r#"{"msg":"Invalid symbol."}"#),
        Err(api("Binance API error: Invalid symbol."))
    );
    assert_eq!(
        read_signed(400, "400 Bad Request", "{}"),
        Err(api("Binance API error: request failed"))
    );
    assert_eq!(
        read_user_data(200, "nothing"),
        Err(api(
            "invalid Binance user-data response: error decoding response body"
        ))
    );
    assert_eq!(
        read_user_data(500, "{}"),
        Err(api("Binance user-data request failed"))
    );
    let answer = read_user_data(200, r#"{"listenKey":"key"}"#).unwrap();
    assert_eq!(listen_key(&answer), Ok("key".to_string()));
    assert_eq!(
        listen_key(&json("[]")),
        Err(api("Binance user-data response omitted listenKey"))
    );
}

#[test]
fn failures_keep_what_they_are_about() {
    assert_eq!(
        order_error(connectivity_error("refused")),
        OrderError::Connectivity(ConnectivityError::Socket("refused".to_string()))
    );
    let response = open_response(
        &open_request(OrderKind::Limit),
        Err(ClientError::Api(ApiError::RateLimit)),
        0,
        at(0),
    );
    assert_eq!(
        response.state,
        Err(OrderError::Rejected(ApiError::RateLimit))
    );
    assert_eq!(response.key, key());
    let cancel = OrderEvent {
        key: key(),
        state: RequestCancel { id: None },
    };
    let response = cancel_response(&cancel, Ok(json(r#"{"orderId":7}"#)), at(3));
    assert_eq!(response.state.unwrap().time_exchange, at(3));
    let response = cancel_response(&cancel, Ok(json("{}")), at(3));
    assert_eq!(
        response.state,
        Err(OrderError::Rejected(ApiError::OrderRejected(
            "Binance cancel response omitted orderId".to_string()
        )))
    );
}

#[test]
fn credentials_come_from_the_caller_or_the_environment() {
    let text = |text: &str| Some(text.to_string());
    let given = Some(("key".to_string(), "secret".to_string()));
    assert_eq!(
        credentials(given, None, None),
        Ok(("key".to_string(), "secret".to_string()))
    );
    assert_eq!(
        credentials(None, None, text("secret")),
        Err(api("missing Binance API key environment variable"))
    );
    assert_eq!(
        credentials(None, text("key"), None),
        Err(api("missing Binance API secret environment variable"))
    );
    assert_eq!(
        credentials(None, text("key"), text("")),
        Err(api("Binance API credentials must not be empty"))
    );
    assert_eq!(
        credentials(None, text("key"), text("secret")),
        Ok(("key".to_string(), "secret".to_string()))
    );
}

#[test]
fn weights_are_those_of_the_endpoints() {
    assert_eq!(request_weight(Method::Get, "/api/v3/account"), 20);
    assert_eq!(request_weight(Method::Get, "/api/v3/myTrades"), 20);
    assert_eq!(request_weight(Method::Get, "/api/v3/openOrders"), 6);
    assert_eq!(request_weight(Method::Post, "/api/v3/order"), 1);
    assert_eq!(request_weight(Method::Delete, "/api/v3/order"), 1);
    assert_eq!(request_weight(Method::Post, "/api/v3/account"), 1);
}

#[test]
fn requests_are_spaced_and_weighed() {
    let config = BinanceSpotConfig {
        weight_limit_per_minute: 40,
        ..Default::default()
    };
    let mut limiter = RequestLimiter::new(&config, millis(0), millis(1_000));
    assert_eq!(limiter.pause(millis(1_000)), None);
    assert_eq!(limiter.step(Gate::Weigh, 20, millis(1_000)), (Gate::Pace, None));
    assert_eq!(limiter.step(Gate::Pace, 20, millis(1_000)), (Gate::Make, None));
    assert_eq!(limiter.step(Gate::Make, 20, millis(1_000)), (Gate::Open, None));
    assert_eq!(limiter.pause(millis(1_020)), Some(Duration::from_millis(30)));
    assert_eq!(
        limiter.step(Gate::Pace, 1, millis(1_020)),
        (Gate::Make, Some(Duration::from_millis(30)))
    );
    limiter.observe_used_weight("39", millis(1_020));
    assert_eq!(limiter.weights.used(), 39);
    limiter.observe_used_weight("many", millis(1_020));
    limiter.observe_used_weight("4294967296", millis(1_020));
    limiter.observe_used_weight("+7", millis(1_020));
    assert_eq!(limiter.weights.used(), 39);
    limiter.observe_used_weight("+40", millis(1_020));
    assert_eq!(limiter.weights.used(), 40);
    assert_eq!(
        limiter.step(Gate::Weigh, 20, millis(1_030)),
        (Gate::Refill, Some(Duration::from_millis(59_970)))
    );
    assert_eq!(limiter.step(Gate::Refill, 20, millis(61_000)), (Gate::Pace, None));
    assert_eq!(limiter.weights.used(), 20);
    assert_eq!(limiter.step(Gate::Open, 20, millis(61_000)), (Gate::Open, None));
}

#[test]
fn symbols_are_kept_once_in_order() {
    let mut symbols = Symbols::new();
    for name in ["BTCUSDT", "ETHUSDT", "BTCUSDT"] {
        symbols.track(name);
    }
    assert_eq!(
        symbols.names(),
        vec!["BTCUSDT".to_string(), "ETHUSDT".to_string()]
    );
}

fn snapshot() -> AccountSnapshot {
    AccountSnapshot {
        exchange: ExchangeId::BinanceSpot,
        balances: vec![],
        instruments: vec![],
    }
}

#[test]
fn the_account_is_seen_before_messages_after_each_connection() {
    let config = BinanceSpotConfig::default();
    let mut stream = AccountStream::new(millis(0));
    let mut next = |input, clock| stream.next(input, &config, millis(clock), 0, at(0));
    assert_eq!(next(StreamInput::Resume, 0), StreamAction::FetchListenKey);
    assert_eq!(next(StreamInput::ListenKey(None), 0), StreamAction::Backoff);
    assert_eq!(next(StreamInput::Resume, 1), StreamAction::FetchListenKey);
    assert_eq!(
        next(StreamInput::ListenKey(Some("key".to_string())), 1),
        StreamAction::Connect("wss://stream.binance.com:9443/ws/key".to_string())
    );
    assert_eq!(next(StreamInput::Connected(true), 2), StreamAction::FetchSnapshot);
    assert_eq!(next(StreamInput::Snapshot(None), 2), StreamAction::Backoff);
    assert_eq!(next(StreamInput::Resume, 3), StreamAction::FetchListenKey);
    next(StreamInput::ListenKey(Some("key".to_string())), 3);
    assert_eq!(next(StreamInput::Connected(true), 4), StreamAction::FetchSnapshot);
    assert!(matches!(
        next(StreamInput::Snapshot(Some(snapshot())), 4),
        StreamAction::Emit(event) if matches!(event.kind, AccountEventKind::Snapshot(_))
    ));
    assert_eq!(next(StreamInput::Resume, 5), StreamAction::Receive);
}

#[test]
fn messages_are_handed_out_in_order_or_reconciled() {
    let config = BinanceSpotConfig::default();
    let mut stream = AccountStream::new(millis(0));
    let mut next = |input, clock| stream.next(input, &config, millis(clock), 0, at(0));
    next(StreamInput::Connected(true), 0);
    next(StreamInput::Snapshot(Some(snapshot())), 0);
    let report = r#"{"e": "executionReport", "s": "BTCUSDT", "orderId": 7, "i": 7, "t": 8,
        "c": "client-7", "S": "BUY", "p": "100", "q": "2", "z": "1", "T": 1, "X": "FILLED",
        "o": "LIMIT", "L": "100", "l": "1", "n": "0.1"}"#;
    assert!(matches!(
        next(StreamInput::Message(Some(report.to_string())), 1),
        StreamAction::Emit(event) if matches!(event.kind, AccountEventKind::Trade(_))
    ));
    assert!(matches!(
        next(StreamInput::Resume, 1),
        StreamAction::Emit(event) if matches!(event.kind, AccountEventKind::OrderSnapshot(_))
    ));
    assert_eq!(next(StreamInput::Resume, 1), StreamAction::Receive);
    assert_eq!(
        next(StreamInput::Message(Some("ping".to_string())), 2),
        StreamAction::FetchSnapshot
    );
    assert_eq!(next(StreamInput::Snapshot(None), 2), StreamAction::Receive);
    assert_eq!(next(StreamInput::Message(None), 2), StreamAction::FetchSnapshot);
    assert_eq!(next(StreamInput::Lost, 3), StreamAction::Backoff);
    assert_eq!(next(StreamInput::Resume, 3), StreamAction::FetchListenKey);
}

#[test]
fn the_key_is_renewed_every_half_hour() {
    let config = BinanceSpotConfig::default();
    let mut stream = AccountStream::new(millis(0));
    let mut next = |input, clock| stream.next(input, &config, millis(clock), 0, at(0));
    next(StreamInput::ListenKey(Some("key".to_string())), 0);
    next(StreamInput::Connected(true), 0);
    next(StreamInput::Snapshot(Some(snapshot())), 0);
    assert_eq!(next(StreamInput::Resume, 1_799_999), StreamAction::Receive);
    assert_eq!(
        next(StreamInput::Resume, 1_800_000),
        StreamAction::Keepalive("key".to_string())
    );
    assert_eq!(next(StreamInput::KeptAlive, 1_800_001), StreamAction::Receive);
}
