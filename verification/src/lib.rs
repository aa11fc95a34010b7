//! A compiler core for a small declarative language describing trees of typed
//! instances with named properties, together with a semantics checker that
//! validates such a tree against a class/property schema with inheritance,
//! enum membership and tag-based mutability rules.

pub mod text;
pub mod values;
pub mod parser;
pub mod api;
pub mod semantics;
