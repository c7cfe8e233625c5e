//! Fetching of per-identifier records in batches through a pool of
//! proxies, with the two tools that feed the pool: a reader of proxy
//! subscriptions and a prober of proxy candidates.
//!
//! The library holds the rules and the state machines; sending requests,
//! waiting and printing are left to its caller.
pub mod decimal;
pub mod enka_fetch;
pub mod probe_pool;
pub mod scan;
pub mod sub_parse;
pub mod text;
