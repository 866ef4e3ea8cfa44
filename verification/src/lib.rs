//! A host for trading and alerting scripts that need periodically refreshed
//! data from HTTP endpoints.
//!
//! Scripts that ask for the same data share one poller, and a script that
//! fails is restarted without touching the others. This crate holds the
//! decisions of that engine, each with a proved contract; timers,
//! sockets, threads and the script engine are the caller's.
//!
//! The engine, leaves first:
//! - [`target`]: a fetch target and its fingerprint;
//! - [`request`]: the request that goes out for a target;
//! - [`response`]: a fetch result, and the events that carry results;
//! - [`fanout`]: the bounded channel from one poller to its subscribers;
//! - [`fetcher`]: the poller, tick by tick;
//! - [`fetch_aggregator`]: the registry with one poller for each fingerprint;
//! - [`session`]: the subscriptions and the queue of one script run;
//! - [`runtime`]: the supervisor that restarts a failing script.
//!
//! Around it: [`decimal`] for rounding decimal numbers, [`lazy_value`] for
//! JSON values that are decoded on use, [`alert`] for voice alerts,
//! [`strategies`] for finding and reloading scripts, and [`position`] for
//! the price ranges of a liquidity position.

pub mod alert;
pub mod decimal;
pub mod fanout;
pub mod fetch_aggregator;
pub mod fetcher;
pub mod lazy_value;
pub mod position;
pub mod request;
pub mod response;
pub mod runtime;
pub mod session;
pub mod strategies;
pub mod target;
