//! A postfix (reverse-Polish) calculator engine.
//!
//! Tokens are taken one at a time from a pending queue and executed against an
//! operand stack, three memory registers and a table of user functions. The
//! engine decides everything that can be decided on text; the floating-point
//! arithmetic itself is answered by the caller through [`machine::Step::Compute`].
pub mod command;
pub mod laws;
pub mod machine;
pub mod number;
pub mod text;
