//! Incremental mirroring of an exchange account into an analytical store.
//!
//! The library holds the decisions and leaves the outside work to its caller:
//! exact decimal quantities and their text, the venue's requests and their
//! signature, normalisation of venue records into storage rows, watermark
//! filtering, the running weighted-average cost basis in the order of time,
//! and the runs that tie these together one outside step at a time.

pub mod assets;
pub mod auth;
pub mod backfill;
pub mod cost_basis;
pub mod decimal;
pub mod decimal_text;
pub mod gmo;
pub mod models;
pub mod normalize;
pub mod pipeline;
pub mod requests;
pub mod sink;
pub mod sync;
pub mod time_order;
