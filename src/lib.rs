//! Real-time message synchronisation for one open chat: an ordered,
//! duplicate-free message store fed by paged history and push events,
//! with backward pagination and a date-separated projection for display.

pub mod models;
pub mod laws;
pub mod ordering;
pub mod projection;
pub mod reconcile;
pub mod store;
pub mod viewport;
