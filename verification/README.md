# barter

Paper trading and exchange connectivity for trading systems, in Rust whose contracts are proved
with Verus.

`src/` is the library. Its functions carry their contracts; what cannot be proved, calls into
other crates, stands in small functions marked `external_body` and in an `assume_specification`,
whose doc comments say what is taken for granted.

| Modules | What they hold |
| --- | --- |
| `decimal`, `time`, `text`, `names`, `json` | Values: decimal numbers over `rust_decimal`, points in time over `chrono`, maps keyed by names, JSON documents |
| `instrument`, `order`, `account` | Instruments, orders, balances, reservations and trades |
| `market` | Order books, and the models of queueing and latency |
| `exchange`, `matching`, `placing`, `resting`, `snapshot`, `requests` | The paper exchange: what a request or a market event does, and the code that does it |
| `laws`, `backing`, `soundness` | What holds of the paper exchange as a whole |
| `channel`, `sender`, `latency`, `rate_limit` | Bounded channels with overflow policies, senders, latency samples, request budgets |
| `observation`, `backtest` | Market data on its way to the engine, and its bridge to the paper exchange |
| `binance`, `binance_messages`, `binance_stream` | Requests to Binance Spot, its messages, and the decisions of its account stream |

Contracts speak of views: names and texts are sequences of characters, an exchange is an
`ExchangeView`. Decimal arithmetic can leave the range of its numbers; functions that would then
have no result require that it does not, and each has a `try_` variant that tests it.

`app/` is ordinary Rust around the library: tasks, HTTP and WebSocket, clocks, files.
