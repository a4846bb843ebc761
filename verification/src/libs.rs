//! What the language provides without a definition in the program.
pub mod stdlib;
