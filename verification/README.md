# learn_libp2p

A handful of small libp2p peers — a floodsub chat, raw TCP listeners and
dialers, and ping endpoints — split into a verified decision library and a
thin driver.

* `src/` (verified with Verus): every choice the peers make.
  * `address` — multiaddresses (parsed by the `multiaddr` crate behind one
    trusted wrapper) and the fixed addresses the peers use, proved to parse.
  * `dial` — whether and where a peer dials at start-up.
  * `chat` — one wake-up of the chat task as a state machine, with laws:
    every line read is published in order, every message received is shown
    in order, a wake-up never finishes the task.
  * `session` — the per-connection byte log of the logging listener.
  * `greeting` — reading exactly three bytes and checking the greeting; the
    greeting sent by the dialer is accepted however it is split.
  * `dialer` — connect, one write, finish.
  * `ping` — the ping client and the ping listener.
  * `peer` — the peer id announced for an ed25519 key (through libp2p).
* `app/`: `main`, the tokio runtime, the libp2p swarms and transports, and the
  terminal; it performs the actions the library returns and reports back
  what happened.
* `tests/`: concrete scenarios for each module.
