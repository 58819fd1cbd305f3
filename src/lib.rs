//! Cache-aside geocoding core: cache keys derived from queries, the choice of
//! the best provider candidate, the rate-limit retry protocol and the lookup flow.

pub mod errors;
pub mod text;
pub mod keys;
pub mod selection;
pub mod retry;
pub mod provider;
pub mod lookup;
pub mod cache;
pub mod config;
pub mod logging;
