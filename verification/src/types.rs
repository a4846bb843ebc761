//! Static types.
pub mod typechecker;
