//! A multi-chain alerting engine: users register declarative rules over
//! on-chain activity, a stream of Cosmos and EVM events is matched against
//! them, and each match yields a webhook notification that is recorded with
//! its delivery statistics.
//!
//! The filter engine ([`filter`], [`cosmos`], [`eth`]) gives each rule kind
//! an exact verdict specification; the stores ([`alert_store`],
//! [`notification_store`]) keep rules and notifications with soft deletion
//! and paged reads; the coordinator ([`pipeline`]) fans one event out to
//! every rule of its chain and class and records what each dispatch came to;
//! the codec ([`codec`]) classifies rule bodies and round-trips them through
//! their persistence form. Calls into chain tooling, such as protobuf, CW20,
//! ABI and base64 decoding, stand behind the trusted declarations of
//! [`decode`].

pub mod admin;
pub mod alert_store;
pub mod codec;
pub mod cosmos;
pub mod decode;
pub mod eth;
pub mod events;
pub mod filter;
pub mod model;
pub mod notification_store;
pub mod pipeline;
pub mod strings;
pub mod validation;
