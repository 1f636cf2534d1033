//! A chat relay: an append-only message log queried by cursor, a page whose
//! compressed forms are computed once, and the dispatch of requests to them.

pub mod message;
pub mod store;
pub mod encoding;
pub mod page;
pub mod router;
pub mod template;
pub mod options;
pub mod text;
