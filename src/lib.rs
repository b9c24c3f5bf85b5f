//! An inline HTTP request-authorization filter, modelled as a verified state
//! machine: header rewriting, the authorization request's wire encoding, the
//! reply's decoding and the allow / deny decision.

pub mod headers;
pub mod wire;
pub mod filter;
pub mod memory;
