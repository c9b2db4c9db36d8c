//! Verified core of a small crypto-exchange built on signed binary
//! transactions: the wire format of the transactions, their signing and
//! checking, the ledger of accounts and orders that they change, and the
//! decisions of the browser client.

pub mod le;
pub mod hexstr;
pub mod crypto;
pub mod message;
pub mod protocol;
pub mod exchange;
pub mod schema;
pub mod node;
pub mod client;
pub mod session;
pub mod config;
pub mod request;
