//! Decision logic of a set of small libp2p peers: a floodsub chat, raw TCP
//! listeners and dialers, and ping endpoints. The network and terminal I/O
//! is driven by the `app` crate; every choice the peers make about what to
//! do next is taken here and verified.

pub mod address;
pub mod dial;
pub mod chat;
pub mod session;
pub mod greeting;
pub mod ping;
pub mod dialer;
pub mod peer;
