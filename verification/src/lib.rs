//! Net Promoter Score bookkeeping: segments, validation of incoming
//! payloads, the score arithmetic behind the dashboard, the monthly trend,
//! and the replies that the HTTP handlers give.

pub mod text;
pub mod segment;
pub mod stats;
pub mod clock;
pub mod trend;
pub mod payloads;
pub mod db;
pub mod error;
pub mod handlers;
