//! Resolves a hardware network-interface identifier prefix to the
//! organization that registered it.
//!
//! The library parses the semi-structured registry text into a normalized
//! record set, compiles that set into an immutable exact-match table keyed
//! by the 24-bit prefix, and answers lookups against the compiled table.
pub mod parser;
pub mod prefix;
pub mod record;
pub mod session;
pub mod store;
pub mod table;
pub mod text;
