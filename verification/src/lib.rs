//! Verified core of a small festive web service: a fixed-width base-61
//! pagination cursor with the quote store and listing service built on it,
//! a four-in-a-row game board, and the pure request-shaping rules of the
//! remaining endpoints. Transport, storage drivers and randomness stay
//! outside; the decisions made from them are proved here.

pub mod board;
pub mod codec;
pub mod cookie;
pub mod decor;
pub mod milk;
pub mod orders;
pub mod routing;
pub mod service;
pub mod store;
pub mod text;
