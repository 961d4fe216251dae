//! Requests to the Binance spot exchange: how they are built, signed, budgeted and answered.

use crate::instrument::Side;
use crate::json::{json_document, Json, JsonView};
use crate::names::{views, NameMap};
use crate::order::{
    ApiError, ConnectivityError, OrderError, OrderKind, OrderRequestCancel, OrderRequestOpen,
    RequestCancel, RequestOpen, TimeInForce, OrderEvent,
};
use crate::rate_limit::{heavier, WeightWindow, WindowView};
use crate::text::{joined, joined3, number_chars, number_text, same_text};
use crate::time::{Duration, Instant, Timestamp, FIRST_SECOND, LAST_SECOND, NANOS_PER_MILLISECOND};
use hmac::Mac;
use vstd::prelude::*;
use vstd::string::*;
use vstd::utf8::encode_utf8;

verus! {

/// How the exchange is reached. Credentials are not part of it: only the names of the
/// environment variables that hold them.
#[derive(Debug, PartialEq, Eq)]
pub struct BinanceSpotConfig {
    pub api_base_url: String,
    pub stream_base_url: String,
    pub api_key_env: String,
    pub api_secret_env: String,
    pub recv_window_ms: u64,
    pub rate_limit_ms: u64,
    /// The request weight that may be used per minute.
    pub weight_limit_per_minute: u32,
    /// The instruments whose trades are fetched before any other is known.
    pub instruments: Vec<String>,
}

/// How the exchange is reached, in the way contracts write it.
pub struct ConfigView {
    pub api_base_url: Seq<char>,
    pub stream_base_url: Seq<char>,
    pub api_key_env: Seq<char>,
    pub api_secret_env: Seq<char>,
    pub recv_window_ms: u64,
    pub rate_limit_ms: u64,
    pub weight_limit_per_minute: u32,
    pub instruments: Seq<Seq<char>>,
}

impl View for BinanceSpotConfig {
    type V = ConfigView;

    open spec fn view(&self) -> ConfigView {
        ConfigView {
            api_base_url: self.api_base_url@,
            stream_base_url: self.stream_base_url@,
            api_key_env: self.api_key_env@,
            api_secret_env: self.api_secret_env@,
            recv_window_ms: self.recv_window_ms,
            rate_limit_ms: self.rate_limit_ms,
            weight_limit_per_minute: self.weight_limit_per_minute,
            instruments: views(self.instruments@),
        }
    }
}

impl ConfigView {
    /// The exchange itself.
    pub open spec fn standard() -> ConfigView {
        ConfigView {
            api_base_url: "https://api.binance.com"@,
            stream_base_url: "wss://stream.binance.com:9443"@,
            api_key_env: "BINANCE_API_KEY"@,
            api_secret_env: "BINANCE_API_SECRET"@,
            recv_window_ms: 5_000,
            rate_limit_ms: 50,
            weight_limit_per_minute: 1_200,
            instruments: Seq::empty(),
        }
    }
}

impl Default for BinanceSpotConfig {
    fn default() -> (result: BinanceSpotConfig)
        ensures
            result@ == ConfigView::standard(),
            result.api_base_url@ == "https://api.binance.com"@,
            result.stream_base_url@ == "wss://stream.binance.com:9443"@,
            result.api_key_env@ == "BINANCE_API_KEY"@,
            result.api_secret_env@ == "BINANCE_API_SECRET"@,
            result.recv_window_ms == 5_000,
            result.rate_limit_ms == 50,
            result.weight_limit_per_minute == 1_200,
            result.instruments@.len() == 0,
    {
        let result = BinanceSpotConfig {
            api_base_url: "https://api.binance.com".to_owned(),
            stream_base_url: "wss://stream.binance.com:9443".to_owned(),
            api_key_env: "BINANCE_API_KEY".to_owned(),
            api_secret_env: "BINANCE_API_SECRET".to_owned(),
            recv_window_ms: 5_000,
            rate_limit_ms: 50,
            weight_limit_per_minute: 1_200,
            instruments: Vec::new(),
        };
        assert(result@.instruments =~= Seq::empty());
        result
    }
}

impl BinanceSpotConfig {
    /// The test network of the exchange. Credentials are read from the same environment
    /// variables.
    pub fn testnet() -> (result: BinanceSpotConfig)
        ensures
            result@ == (ConfigView {
                api_base_url: "https://testnet.binance.vision"@,
                stream_base_url: "wss://stream.testnet.binance.vision"@,
                ..ConfigView::standard()
            }),
    {
        let standard = BinanceSpotConfig::default();
        BinanceSpotConfig {
            api_base_url: "https://testnet.binance.vision".to_owned(),
            stream_base_url: "wss://stream.testnet.binance.vision".to_owned(),
            api_key_env: standard.api_key_env,
            api_secret_env: standard.api_secret_env,
            recv_window_ms: standard.recv_window_ms,
            rate_limit_ms: standard.rate_limit_ms,
            weight_limit_per_minute: standard.weight_limit_per_minute,
            instruments: standard.instruments,
        }
    }
}

/// Why a request to the exchange failed.
#[derive(Debug, PartialEq, Eq)]
pub enum ClientError<N> {
    Connectivity(ConnectivityError<N>),
    Api(ApiError<N>),
}

impl View for ClientError<String> {
    type V = ClientError<Seq<char>>;

    open spec fn view(&self) -> ClientError<Seq<char>> {
        match self {
            ClientError::Connectivity(error) => ClientError::Connectivity(error@),
            ClientError::Api(error) => ClientError::Api(error@),
        }
    }
}

/// The failure with the message.
pub open spec fn api_failure(message: Seq<char>) -> ClientError<Seq<char>> {
    ClientError::Api(ApiError::OrderRejected(message))
}

/// The failure with the message.
pub fn api_error(message: &str) -> (result: ClientError<String>)
    ensures
        result@ == api_failure(message@),
{
    ClientError::Api(ApiError::OrderRejected(message.to_owned()))
}

/// The failure of a request about an order.
pub fn order_error(error: ClientError<String>) -> (result: OrderError<String>)
    ensures
        result@ == (match error@ {
            ClientError::Connectivity(error) => OrderError::Connectivity(error),
            ClientError::Api(error) => OrderError::Rejected(error),
        }),
{
    match error {
        ClientError::Connectivity(error) => OrderError::Connectivity(error),
        ClientError::Api(error) => OrderError::Rejected(error),
    }
}

/// A failure to reach the exchange.
pub fn connectivity_error(message: &str) -> (result: ClientError<String>)
    ensures
        result@ == ClientError::Connectivity(ConnectivityError::Socket(message@)),
{
    ClientError::Connectivity(ConnectivityError::Socket(message.to_owned()))
}

/// The refusal of a request about an order.
pub fn api_order_error(message: &str) -> (result: OrderError<String>)
    ensures
        result@ == OrderError::Rejected(ApiError::OrderRejected(message@)),
{
    OrderError::Rejected(ApiError::OrderRejected(message.to_owned()))
}

/// Credentials or an error, in the way contracts write them.
pub open spec fn credentials_view(
    result: Result<(String, String), ClientError<String>>,
) -> Result<(Seq<char>, Seq<char>), ClientError<Seq<char>>> {
    match result {
        Ok((key, secret)) => Ok((key@, secret@)),
        Err(error) => Err(error@),
    }
}

/// The credentials to use: those that are given, or else those that the environment holds, which
/// must be there and not be empty.
pub fn credentials(
    given: Option<(String, String)>,
    key: Option<String>,
    secret: Option<String>,
) -> (result: Result<(String, String), ClientError<String>>)
    ensures
        credentials_view(result) == (match (given, key, secret) {
            (Some((key, secret)), _, _) => Ok((key@, secret@)),
            (None, None, _) => Err(
                api_failure("missing Binance API key environment variable"@),
            ),
            (None, Some(_), None) => Err(
                api_failure("missing Binance API secret environment variable"@),
            ),
            (None, Some(key), Some(secret)) => if key@.len() == 0 || secret@.len() == 0 {
                Err(api_failure("Binance API credentials must not be empty"@))
            } else {
                Ok((key@, secret@))
            },
        }),
{
    match given {
        Some(given) => return Ok(given),
        None => {},
    }
    let key = match key {
        Some(key) => key,
        None => return Err(api_error("missing Binance API key environment variable")),
    };
    let secret = match secret {
        Some(secret) => secret,
        None => return Err(api_error("missing Binance API secret environment variable")),
    };
    if key.as_str().is_empty() || secret.as_str().is_empty() {
        return Err(api_error("Binance API credentials must not be empty"));
    }
    Ok((key, secret))
}

/// What a request does.
#[derive(Debug, Clone, Copy, PartialEq, Eq, Structural)]
pub enum Method {
    Get,
    Post,
    Put,
    Delete,
}

/// The weight of a request in the budget of the exchange.
pub open spec fn weight_of(method: Method, path: Seq<char>) -> u32 {
    if method is Get && path == "/api/v3/account"@ {
        20
    } else if method is Get && path == "/api/v3/myTrades"@ {
        20
    } else if method is Get && path == "/api/v3/openOrders"@ {
        6
    } else {
        1
    }
}

/// The weight of a request in the budget of the exchange.
pub fn request_weight(method: Method, path: &str) -> (result: u32)
    ensures
        result == weight_of(method, path@),
{
    if method != Method::Get {
        1
    } else if same_text(path, "/api/v3/account") {
        20
    } else if same_text(path, "/api/v3/myTrades") {
        20
    } else if same_text(path, "/api/v3/openOrders") {
        6
    } else {
        1
    }
}

/// How the exchange writes a time in force.
pub open spec fn tif_text(value: TimeInForce) -> Seq<char> {
    match value {
        TimeInForce::FillOrKill => "FOK"@,
        TimeInForce::ImmediateOrCancel => "IOC"@,
        _ => "GTC"@,
    }
}

/// How the exchange writes a time in force.
pub fn tif(value: TimeInForce) -> (result: &'static str)
    ensures
        result@ == tif_text(value),
{
    match value {
        TimeInForce::FillOrKill => "FOK",
        TimeInForce::ImmediateOrCancel => "IOC",
        _ => "GTC",
    }
}

/// A parameter of a request, in the way contracts write it.
pub type ParamView = (Seq<char>, Seq<char>);

/// The parameter with the name and the value.
fn param(name: &str, value: &str) -> (result: (String, String))
    ensures
        result@ == (name@, value@),
{
    (name.to_owned(), value.to_owned())
}

/// The parameters, with the price and the time in force where the order has a limit.
pub open spec fn with_limit_terms(params: Seq<ParamView>, request: RequestOpen) -> Seq<ParamView> {
    if request.kind is Limit {
        params.push(("price"@, request.price.text())).push(
            ("timeInForce"@, tif_text(request.time_in_force)),
        )
    } else {
        params
    }
}

/// The parameters that ask for a new order.
pub open spec fn open_terms(request: OrderEvent<Seq<char>, RequestOpen>) -> Seq<ParamView> {
    with_limit_terms(
        seq![
            ("symbol"@, request.key.instrument),
            (
                "side"@,
                match request.state.side {
                    Side::Buy => "BUY"@,
                    Side::Sell => "SELL"@,
                },
            ),
            (
                "type"@,
                match request.state.kind {
                    OrderKind::Market => "MARKET"@,
                    OrderKind::Limit => "LIMIT"@,
                },
            ),
            ("quantity"@, request.state.quantity.magnitude().text()),
            ("newClientOrderId"@, request.key.cid),
        ],
        request.state,
    )
}

/// The parameters that ask for a new order.
pub fn open_order_params(request: &OrderRequestOpen) -> (result: Vec<(String, String)>)
    ensures
        views(result@) == open_terms(request@),
{
    let quantity = request.state.quantity.abs().to_text();
    let mut params = vec![
        param("symbol", request.key.instrument.as_str()),
        param(
            "side",
            match request.state.side {
                Side::Buy => "BUY",
                Side::Sell => "SELL",
            },
        ),
        param(
            "type",
            match request.state.kind {
                OrderKind::Market => "MARKET",
                OrderKind::Limit => "LIMIT",
            },
        ),
        param("quantity", quantity.as_str()),
        param("newClientOrderId", request.key.cid.as_str()),
    ];
    if request.state.kind == OrderKind::Limit {
        let price = request.state.price.to_text();
        params.push(param("price", price.as_str()));
        params.push(param("timeInForce", tif(request.state.time_in_force)));
    }
    assert(views(params@) =~= open_terms(request@));
    params
}

/// The parameters that ask to cancel an order.
pub open spec fn cancel_terms(request: OrderEvent<Seq<char>, RequestCancel<Seq<char>>>) -> Seq<
    ParamView,
> {
    let params = seq![
        ("symbol"@, request.key.instrument),
        ("origClientOrderId"@, request.key.cid),
    ];
    match request.state.id {
        Some(id) => params.push(("orderId"@, id)),
        None => params,
    }
}

/// The parameters that ask to cancel an order.
pub fn cancel_order_params(request: &OrderRequestCancel) -> (result: Vec<(String, String)>)
    ensures
        views(result@) == cancel_terms(request@),
{
    let mut params = vec![
        param("symbol", request.key.instrument.as_str()),
        param("origClientOrderId", request.key.cid.as_str()),
    ];
    match &request.state.id {
        Some(id) => params.push(param("orderId", id.as_str())),
        None => {},
    }
    assert(views(params@) =~= cancel_terms(request@));
    params
}

/// The decimal digits of a whole number.
pub open spec fn integer_chars(number: int) -> Seq<char> {
    if number < 0 {
        "-"@ + number_chars((-number) as nat)
    } else {
        number_chars(number as nat)
    }
}

/// The decimal digits of a whole number.
fn integer_text(number: i64) -> (result: String)
    ensures
        result@ == integer_chars(number as int),
{
    if number < 0 {
        let magnitude: u64 = if number == i64::MIN {
            9_223_372_036_854_775_808
        } else {
            (-number) as u64
        };
        let digits = number_text(magnitude);
        joined("-", digits.as_str())
    } else {
        number_text(number as u64)
    }
}

/// The whole milliseconds from the start of 1970 to the point in time.
pub open spec fn millis_since_epoch(time: Timestamp) -> int {
    time.secs * 1_000 + time.nanos / NANOS_PER_MILLISECOND
}

/// The parameters that ask for the trades of an instrument from a time on.
pub open spec fn trades_terms(instrument: Seq<char>, time_since: Timestamp) -> Seq<ParamView> {
    seq![
        ("symbol"@, instrument),
        ("startTime"@, integer_chars(millis_since_epoch(time_since))),
        ("limit"@, "1000"@),
    ]
}

/// The parameters that ask for the trades of an instrument from a time on.
pub fn my_trades_params(instrument: &str, time_since: Timestamp) -> (result: Vec<(String, String)>)
    requires
        FIRST_SECOND <= time_since.secs <= LAST_SECOND,
    ensures
        views(result@) == trades_terms(instrument@, time_since),
{
    let millis: i64 = time_since.secs * 1_000 + (time_since.nanos / NANOS_PER_MILLISECOND) as i64;
    let start = integer_text(millis);
    let params = vec![
        param("symbol", instrument),
        param("startTime", start.as_str()),
        param("limit", "1000"),
    ];
    assert(views(params@) =~= trades_terms(instrument@, time_since));
    params
}

/// The character of half a byte, in lower case.
pub open spec fn hex_digit(half: int) -> char {
    seq!['0', '1', '2', '3', '4', '5', '6', '7', '8', '9', 'a', 'b', 'c', 'd', 'e', 'f'][half]
}

/// The bytes in hexadecimal, two characters each.
pub open spec fn hex_chars(bytes: Seq<u8>) -> Seq<char>
    decreases bytes.len(),
{
    if bytes.len() == 0 {
        Seq::empty()
    } else {
        hex_chars(bytes.drop_last()).push(hex_digit(bytes.last() as int / 16)).push(
            hex_digit(bytes.last() as int % 16),
        )
    }
}

/// `hex::encode`: the bytes in hexadecimal, in lower case.
#[verifier::external_body]
fn hex_text(bytes: &Vec<u8>) -> (result: String)
    ensures
        result@ == hex_chars(bytes@),
{
    hex::encode(bytes)
}

/// What `hmac::Hmac` over `sha2::Sha256` makes of the bytes of a key and of a message.
pub uninterp spec fn hmac_sha256(key: Seq<u8>, message: Seq<u8>) -> Seq<u8>;

/// `hmac::Hmac` over `sha2::Sha256`: a code of 32 bytes, made from a key of any length and a
/// message. There is none only if the crate refuses the key, which it never does.
#[verifier::external_body]
fn mac_bytes(key: &[u8], message: &[u8]) -> (result: Option<Vec<u8>>)
    ensures
        result matches Some(code) ==> code@ == hmac_sha256(key@, message@) && code@.len() == 32,
        result is Some,
{
    let mut signer = hmac::Hmac::<sha2::Sha256>::new_from_slice(key).ok()?;
    signer.update(message);
    Some(signer.finalize().into_bytes().to_vec())
}

/// The signature of a query with the secret.
pub open spec fn signature_of(query: Seq<char>, secret: Seq<char>) -> Seq<char> {
    hex_chars(hmac_sha256(encode_utf8(secret), encode_utf8(query)))
}

/// Every byte takes two characters.
proof fn lemma_hex_chars_len(bytes: Seq<u8>)
    ensures
        hex_chars(bytes).len() == 2 * bytes.len(),
    decreases bytes.len(),
{
    if bytes.len() > 0 {
        lemma_hex_chars_len(bytes.drop_last());
    }
}

/// The signature of a query with the secret: 64 hexadecimal characters.
pub fn sign_query(query: &str, secret: &str) -> (result: Result<String, ClientError<String>>)
    ensures
        result matches Ok(signature) && signature@ == signature_of(query@, secret@)
            && signature@.len() == 64,
        result matches Ok(signature) && signature@ == hex_chars(
            hmac_sha256(encode_utf8(secret@), encode_utf8(query@)),
        ),
{
    match mac_bytes(secret.as_bytes(), query.as_bytes()) {
        Some(code) => {
            proof {
                lemma_hex_chars_len(code@);
            }
            Ok(hex_text(&code))
        },
        None => Err(api_error("invalid Binance signing key")),
    }
}

/// The byte stands for itself in an encoded form.
pub open spec fn stays_itself(byte: u8) -> bool {
    0x30 <= byte <= 0x39 || 0x41 <= byte <= 0x5a || 0x61 <= byte <= 0x7a || byte == 0x2a || byte
        == 0x2d || byte == 0x2e || byte == 0x5f
}

/// The character of half a byte, in upper case.
pub open spec fn upper_hex_digit(half: int) -> char {
    seq!['0', '1', '2', '3', '4', '5', '6', '7', '8', '9', 'A', 'B', 'C', 'D', 'E', 'F'][half]
}

/// A byte in an encoded form: itself, a plus sign for a space, or a percent sign and its
/// hexadecimal digits.
pub open spec fn form_byte(byte: u8) -> Seq<char> {
    if stays_itself(byte) {
        seq![byte as char]
    } else if byte == 0x20 {
        seq!['+']
    } else {
        seq!['%', upper_hex_digit(byte as int / 16), upper_hex_digit(byte as int % 16)]
    }
}

/// Bytes in an encoded form.
pub open spec fn form_bytes(bytes: Seq<u8>) -> Seq<char>
    decreases bytes.len(),
{
    if bytes.len() == 0 {
        Seq::empty()
    } else {
        form_bytes(bytes.drop_last()) + form_byte(bytes.last())
    }
}

/// Parameters in an encoded form: each as its name, an equals sign and its value, with an
/// ampersand between two.
pub open spec fn form_text(params: Seq<ParamView>) -> Seq<char>
    decreases params.len(),
{
    if params.len() == 0 {
        Seq::empty()
    } else {
        let before = form_text(params.drop_last());
        let separated = if params.len() == 1 {
            before
        } else {
            before.push('&')
        };
        (separated + form_bytes(encode_utf8(params.last().0))).push('=') + form_bytes(
            encode_utf8(params.last().1),
        )
    }
}

/// `form_urlencoded::Serializer`, which the crate `url` hands on: the parameters in an encoded
/// form.
#[verifier::external_body]
fn encode_params(params: &Vec<(String, String)>) -> (result: String)
    ensures
        result@ == form_text(views(params@)),
{
    url::form_urlencoded::Serializer::new(String::new()).extend_pairs(params).finish()
}

/// A text without the slashes at its end.
pub open spec fn without_slashes(text: Seq<char>) -> Seq<char>
    decreases text.len(),
{
    if text.len() > 0 && text.last() == '/' {
        without_slashes(text.drop_last())
    } else {
        text
    }
}

/// The text without the slashes at its end.
fn trim_slashes(text: &str) -> (result: &str)
    ensures
        result@ == without_slashes(text@),
{
    let mut end: usize = text.unicode_len();
    assert(text@.take(end as int) =~= text@);
    while end > 0 && text.get_char(end - 1) == '/'
        invariant
            end <= text@.len(),
            without_slashes(text@.take(end as int)) == without_slashes(text@),
        decreases end,
    {
        assert(text@.take(end as int).drop_last() =~= text@.take(end - 1));
        end = end - 1;
    }
    text.substring_char(0, end)
}

/// The parameters of a signed request: its own, the window in which it is valid, and when it was
/// made.
pub open spec fn timed(params: Seq<ParamView>, recv_window_ms: u64, now_millis: i64) -> Seq<
    ParamView,
> {
    params.push(("recvWindow"@, number_chars(recv_window_ms as nat))).push(
        ("timestamp"@, integer_chars(now_millis as int)),
    )
}

/// The address of a signed request.
pub open spec fn signed_address(
    base: Seq<char>,
    path: Seq<char>,
    query: Seq<char>,
    secret: Seq<char>,
) -> Seq<char> {
    without_slashes(base) + path + "?"@ + query + "&signature="@ + signature_of(query, secret)
}

/// The address of a signed request: the parameters, when it is made, and a signature over both.
pub fn signed_url(
    config: &BinanceSpotConfig,
    path: &str,
    params: Vec<(String, String)>,
    now_millis: i64,
    secret: &str,
) -> (result: Result<String, ClientError<String>>)
    ensures
        result matches Ok(url) && url@ == signed_address(
            config@.api_base_url,
            path@,
            form_text(timed(views(params@), config.recv_window_ms, now_millis)),
            secret@,
        ),
{
    let ghost own = views(params@);
    let mut params = params;
    let window = number_text(config.recv_window_ms);
    let timestamp = integer_text(now_millis);
    params.push(param("recvWindow", window.as_str()));
    params.push(param("timestamp", timestamp.as_str()));
    assert(views(params@) =~= timed(own, config.recv_window_ms, now_millis));
    let query = encode_params(&params);
    let signature = match sign_query(query.as_str(), secret) {
        Ok(signature) => signature,
        Err(error) => return Err(error),
    };
    let mut url = joined3(trim_slashes(config.api_base_url.as_str()), path, "?");
    url.append(query.as_str());
    url.append("&signature=");
    url.append(signature.as_str());
    Ok(url)
}

/// The address of the user data endpoint.
pub fn user_data_url(config: &BinanceSpotConfig) -> (result: String)
    ensures
        result@ == config@.api_base_url + "/api/v3/userDataStream"@,
{
    joined(config.api_base_url.as_str(), "/api/v3/userDataStream")
}

/// The address of the stream of user data.
pub fn stream_url(config: &BinanceSpotConfig, listen_key: &str) -> (result: String)
    ensures
        result@ == config@.stream_base_url + "/ws/"@ + listen_key@,
{
    joined3(config.stream_base_url.as_str(), "/ws/", listen_key)
}

/// A document or an error, in the way contracts write them.
pub open spec fn answer_view(result: Result<Json, ClientError<String>>) -> Result<
    JsonView,
    ClientError<Seq<char>>,
> {
    match result {
        Ok(document) => Ok(document@),
        Err(error) => Err(error@),
    }
}

/// The status is that of a success.
pub open spec fn is_success(status: u16) -> bool {
    200 <= status < 300
}

/// The message of a document, or another where it has none.
pub open spec fn message_of(document: JsonView, otherwise: Seq<char>) -> Seq<char> {
    match document.text("msg"@) {
        Some(message) => message,
        None => otherwise,
    }
}

/// What an answer to a signed request with the status means, once it is read.
pub open spec fn signed_meaning(
    status: u16,
    status_text: Seq<char>,
    document: Option<JsonView>,
) -> Result<JsonView, ClientError<Seq<char>>> {
    match document {
        None => Err(
            api_failure("Binance returned non-JSON response ("@ + status_text + ")"@),
        ),
        Some(document) => if status == 429 {
            Err(ClientError::Api(ApiError::RateLimit))
        } else if !is_success(status) {
            Err(
                api_failure(
                    "Binance API error: "@ + message_of(document, "request failed"@),
                ),
            )
        } else {
            Ok(document)
        },
    }
}

/// What an answer to a signed request means, once it is read.
pub fn interpret_signed(status: u16, status_text: &str, document: Option<Json>) -> (result: Result<
    Json,
    ClientError<String>,
>)
    ensures
        answer_view(result) == signed_meaning(
            status,
            status_text@,
            crate::json::document_view(document),
        ),
{
    let document = match document {
        Some(document) => document,
        None => {
            let message = joined3("Binance returned non-JSON response (", status_text, ")");
            return Err(api_error(message.as_str()));
        },
    };
    if status == 429 {
        return Err(ClientError::Api(ApiError::RateLimit));
    }
    if status < 200 || status >= 300 {
        let reason = match document.get_text("msg") {
            Some(reason) => reason,
            None => "request failed",
        };
        let message = joined("Binance API error: ", reason);
        return Err(api_error(message.as_str()));
    }
    Ok(document)
}

/// Reads an answer to a signed request.
pub fn read_signed(status: u16, status_text: &str, body: &str) -> (result: Result<
    Json,
    ClientError<String>,
>)
    ensures
        answer_view(result) == signed_meaning(status, status_text@, json_document(body@)),
{
    interpret_signed(status, status_text, Json::parse(body))
}

/// What an answer to a user data request with the status means, once it is read.
pub open spec fn user_data_meaning(status: u16, document: Option<JsonView>) -> Result<
    JsonView,
    ClientError<Seq<char>>,
> {
    match document {
        None => Err(
            api_failure("invalid Binance user-data response: error decoding response body"@),
        ),
        Some(document) => if !is_success(status) {
            Err(api_failure(message_of(document, "Binance user-data request failed"@)))
        } else {
            Ok(document)
        },
    }
}

/// What an answer to a user data request means, once it is read.
pub fn interpret_user_data(status: u16, document: Option<Json>) -> (result: Result<
    Json,
    ClientError<String>,
>)
    ensures
        answer_view(result) == user_data_meaning(status, crate::json::document_view(document)),
{
    let document = match document {
        Some(document) => document,
        None => return Err(
            api_error("invalid Binance user-data response: error decoding response body"),
        ),
    };
    if status < 200 || status >= 300 {
        let reason = match document.get_text("msg") {
            Some(reason) => reason,
            None => "Binance user-data request failed",
        };
        return Err(api_error(reason));
    }
    Ok(document)
}

/// Reads an answer to a user data request.
pub fn read_user_data(status: u16, body: &str) -> (result: Result<Json, ClientError<String>>)
    ensures
        answer_view(result) == user_data_meaning(status, json_document(body@)),
{
    interpret_user_data(status, Json::parse(body))
}

/// A text or an error, in the way contracts write them.
pub open spec fn key_view(result: Result<String, ClientError<String>>) -> Result<
    Seq<char>,
    ClientError<Seq<char>>,
> {
    match result {
        Ok(key) => Ok(key@),
        Err(error) => Err(error@),
    }
}

/// The key of the stream of user data.
pub fn listen_key(document: &Json) -> (result: Result<String, ClientError<String>>)
    ensures
        key_view(result) == (match document@.text("listenKey"@) {
            Some(key) => Ok(key),
            None => Err(api_failure("Binance user-data response omitted listenKey"@)),
        }),
{
    match document.get_text("listenKey") {
        Some(key) => Ok(key.to_owned()),
        None => Err(api_error("Binance user-data response omitted listenKey")),
    }
}

/// The characters are decimal digits.
pub open spec fn all_digits(text: Seq<char>) -> bool {
    forall|i: int| 0 <= i < text.len() ==> '0' <= #[trigger] text[i] <= '9'
}

/// The number that decimal digits stand for.
pub open spec fn digits_value(text: Seq<char>) -> nat
    decreases text.len(),
{
    if text.len() == 0 {
        0
    } else {
        10 * digits_value(text.drop_last()) + (text.last() as nat - '0' as nat) as nat
    }
}

/// The digits of a number that may have a plus sign before them.
pub open spec fn without_plus(text: Seq<char>) -> Seq<char> {
    if text.len() > 0 && text[0] == '+' {
        text.skip(1)
    } else {
        text
    }
}

/// The number that a text spells: decimal digits, at least one, with or without a plus sign
/// before them.
pub open spec fn spelled_u32(text: Seq<char>) -> Option<u32> {
    let digits = without_plus(text);
    if digits.len() > 0 && all_digits(digits) && digits_value(digits) <= u32::MAX {
        Some(digits_value(digits) as u32)
    } else {
        None
    }
}

/// More digits do not make a number smaller.
proof fn lemma_digits_grow(text: Seq<char>, count: int)
    requires
        0 <= count <= text.len(),
    ensures
        digits_value(text.take(count)) <= digits_value(text),
    decreases text.len() - count,
{
    if count < text.len() {
        assert(text.take(count + 1).drop_last() =~= text.take(count));
        lemma_digits_grow(text, count + 1);
    } else {
        assert(text.take(count) =~= text);
    }
}

/// The number that the text spells, if it spells one.
fn parse_u32(text: &str) -> (result: Option<u32>)
    ensures
        result == spelled_u32(text@),
{
    let end: usize = text.unicode_len();
    let start: usize = if end > 0 && text.get_char(0) == '+' {
        1
    } else {
        0
    };
    let ghost digits = without_plus(text@);
    assert(digits =~= text@.skip(start as int));
    if start == end {
        return None;
    }
    let mut value: u32 = 0;
    let mut next: usize = start;
    assert(digits.take(0) =~= Seq::empty());
    while next < end
        invariant
            start <= next <= end,
            end == text@.len(),
            digits == without_plus(text@),
            digits == text@.skip(start as int),
            forall|i: int| 0 <= i < next - start ==> '0' <= #[trigger] digits[i] <= '9',
            value == digits_value(digits.take(next - start)),
        decreases end - next,
    {
        let digit = text.get_char(next);
        assert(digit == digits[next - start]);
        if digit < '0' || '9' < digit {
            return None;
        }
        let longer: u64 = 10 * value as u64 + (digit as u64 - '0' as u64);
        proof {
            assert(digits.take(next + 1 - start).drop_last() =~= digits.take(next - start));
            lemma_digits_grow(digits, next + 1 - start);
        }
        if longer > u32::MAX as u64 {
            return None;
        }
        value = longer as u32;
        next = next + 1;
    }
    assert(digits.take(next - start) =~= digits);
    Some(value)
}

/// The budget of requests to the exchange: their weight per minute, and the time between two.
pub struct RequestLimiter {
    pub weights: WeightWindow,
    pub interval: Duration,
    pub last: Instant,
}

/// The budget of requests to the exchange, in the way contracts write it.
pub struct LimiterView {
    pub weights: WindowView,
    pub interval: Duration,
    pub last: Instant,
}

impl View for RequestLimiter {
    type V = LimiterView;

    open spec fn view(&self) -> LimiterView {
        LimiterView { weights: self.weights@, interval: self.interval, last: self.last }
    }
}

/// Where a request stands on its way out.
#[derive(Debug, Clone, Copy, PartialEq, Eq, Structural)]
pub enum Gate {
    /// Its weight is to be reserved.
    Weigh,
    /// It has waited for a new interval of weight.
    Refill,
    /// The interval since the last request is to pass.
    Pace,
    /// It is about to be made.
    Make,
    /// It may go out.
    Open,
}

impl LimiterView {
    /// How long to wait until the interval since the last request is over, unless it is.
    pub open spec fn pause(self, now: Instant) -> Option<Duration> {
        if now.since(self.last).nanos <= self.interval.nanos {
            Some(self.interval.less_span(now.since(self.last)))
        } else {
            None
        }
    }

    /// The budget after a step of a request, where the request then stands, and how long it
    /// waits before its next step.
    pub open spec fn step(self, gate: Gate, weight: u32, now: Instant) -> (
        LimiterView,
        Gate,
        Option<Duration>,
    ) {
        match gate {
            Gate::Weigh => {
                let (weights, wait) = self.weights.reserved(weight, now);
                let after = LimiterView { weights, ..self };
                if wait.nanos > 0 {
                    (after, Gate::Refill, Some(wait))
                } else {
                    (after, Gate::Pace, None)
                }
            },
            Gate::Refill => (
                LimiterView {
                    weights: WindowView {
                        used: heavier(weight, 1),
                        start: now,
                        ..self.weights
                    },
                    ..self
                },
                Gate::Pace,
                None,
            ),
            Gate::Pace => (self, Gate::Make, self.pause(now)),
            Gate::Make => (LimiterView { last: now, ..self }, Gate::Open, None),
            Gate::Open => (self, Gate::Open, None),
        }
    }
}

impl RequestLimiter {
    /// A budget of which nothing is used. The last request counts as made at the time given.
    pub fn new(config: &BinanceSpotConfig, last: Instant, now: Instant) -> (result: RequestLimiter)
        ensures
            result@ == (LimiterView {
                weights: WindowView {
                    limit: heavier(config.weight_limit_per_minute, 1),
                    window: Duration { nanos: 60_000_000_000 },
                    used: 0,
                    start: now,
                },
                interval: Duration { nanos: (config.rate_limit_ms * 1_000_000) as u128 },
                last,
            }),
    {
        RequestLimiter {
            weights: WeightWindow::new(
                config.weight_limit_per_minute,
                Duration::from_secs(60),
                now,
            ),
            interval: Duration::from_millis(config.rate_limit_ms),
            last,
        }
    }

    /// How long to wait until the interval since the last request is over, unless it is.
    pub fn pause(&self, now: Instant) -> (result: Option<Duration>)
        ensures
            result == self@.pause(now),
    {
        let elapsed = now.duration_since(self.last);
        if elapsed.nanos <= self.interval.nanos {
            Some(self.interval.saturating_sub(elapsed))
        } else {
            None
        }
    }

    /// Takes a request one step further: where it then stands, and how long it waits before its
    /// next step.
    pub fn step(&mut self, gate: Gate, weight: u32, now: Instant) -> (result: (
        Gate,
        Option<Duration>,
    ))
        ensures
            (final(self)@, result.0, result.1) == old(self)@.step(gate, weight, now),
    {
        match gate {
            Gate::Weigh => {
                let wait = self.weights.reserve(weight, now);
                if wait.nanos > 0 {
                    (Gate::Refill, Some(wait))
                } else {
                    (Gate::Pace, None)
                }
            },
            Gate::Refill => {
                self.weights.start_new_window(weight, now);
                (Gate::Pace, None)
            },
            Gate::Pace => (Gate::Make, self.pause(now)),
            Gate::Make => {
                self.last = now;
                (Gate::Open, None)
            },
            Gate::Open => (Gate::Open, None),
        }
    }

    /// Takes in the weight that the exchange says is used, where the text is a number.
    pub fn observe_used_weight(&mut self, text: &str, now: Instant)
        ensures
            final(self)@ == (match spelled_u32(text@) {
                Some(used) => LimiterView {
                    weights: WindowView {
                        used: heavier(old(self)@.weights.rolled(now).used, used),
                        ..old(self)@.weights.rolled(now)
                    },
                    ..old(self)@
                },
                None => old(self)@,
            }),
    {
        match parse_u32(text) {
            Some(used) => self.weights.observe_used(used, now),
            None => {},
        }
    }
}

/// A request that waits as long as it is told goes out no sooner than the interval after the
/// last one.
pub proof fn law_requests_keep_the_interval(
    limiter: LimiterView,
    weight: u32,
    now: Instant,
    later: Instant,
)
    requires
        now.nanos >= limiter.last.nanos,
        later.nanos >= now.nanos + (match limiter.step(Gate::Pace, weight, now).2 {
            Some(wait) => wait.nanos as int,
            None => 0,
        }),
    ensures
        later.nanos >= limiter.last.nanos + limiter.interval.nanos,
        limiter.step(Gate::Make, weight, later).0.last == later,
{
}

/// A request whose weight the limit allows goes on at once where the budget has room for it, and
/// after a wait starts a new interval with just its own weight used.
pub proof fn law_requests_keep_the_budget(
    limiter: LimiterView,
    weight: u32,
    now: Instant,
    later: Instant,
)
    requires
        heavier(weight, 1) <= limiter.weights.limit,
        limiter.weights.used <= limiter.weights.limit,
    ensures
        limiter.step(Gate::Weigh, weight, now).0.weights.used <= limiter.weights.limit,
        limiter.step(Gate::Weigh, weight, now).1 is Pace
            || limiter.step(Gate::Weigh, weight, now).1 is Refill,
        limiter.step(Gate::Refill, weight, later).0.weights.used <= limiter.weights.limit,
{
}

/// The instruments whose trades are fetched: those that were configured or asked about.
pub struct Symbols {
    names: NameMap<bool>,
}

impl Symbols {
    /// The names, in the order in which they came.
    pub closed spec fn listed(&self) -> Seq<Seq<char>> {
        self.names@.keys
    }

    /// No instrument.
    pub fn new() -> (result: Symbols)
        ensures
            result.listed() == Seq::<Seq<char>>::empty(),
    {
        Symbols { names: NameMap::new() }
    }

    /// Adds an instrument, unless it is there.
    pub fn track(&mut self, instrument: &str)
        ensures
            final(self).listed() == (if old(self).listed().contains(instrument@) {
                old(self).listed()
            } else {
                old(self).listed().push(instrument@)
            }),
            final(self).listed().no_duplicates(),
    {
        let _ = self.names.len();
        self.names.insert(instrument.to_owned(), true);
    }

    /// The instruments, in the order in which they came.
    pub fn names(&self) -> (result: Vec<String>)
        ensures
            views(result@) == self.listed(),
            self.listed().no_duplicates(),
    {
        let count = self.names.len();
        let mut result: Vec<String> = Vec::new();
        let mut next: usize = 0;
        while next < count
            invariant
                next <= count,
                count == self.names@.keys.len(),
                result@.len() == next,
                forall|i: int| 0 <= i < next ==> (#[trigger] result@[i])@ == self.names@.keys[i],
            decreases count - next,
        {
            result.push(self.names.key_at(next).clone());
            next = next + 1;
        }
        assert(views(result@) =~= self.listed());
        result
    }
}

} // verus!
