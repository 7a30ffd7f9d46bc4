//! A client library for the Hotline protocol: transaction codec, session
//! decisions, request routing, event dispatch, file-transfer envelopes and
//! tracker listings.

pub mod codes;
pub mod events;
pub mod path;
pub mod records;
pub mod replies;
pub mod session;
pub mod text;
pub mod transaction;
pub mod tracker;
pub mod transfer;
pub mod types;
pub mod wire;
