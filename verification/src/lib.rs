//! Day-exact electricity spot-price analysis.
//!
//! The crate resolves a local calendar day in a named timezone into the UTC
//! query window a pricing service expects, filters a returned price series
//! back down to exactly that local day, and aggregates it into summary
//! statistics. Timezone offset lookups come from `chrono-tz`; everything
//! around them — calendar arithmetic, windowing, filtering, aggregation — is
//! verified.

pub mod calendar;
pub mod day;
pub mod filter;
pub mod resolver;
pub mod series;
pub mod stats;
pub mod zone;
