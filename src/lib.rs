//! Composable parsers over token sequences, with a two-kind error model that
//! tells wrong input apart from input that has not arrived yet.
pub mod token;
pub mod input;
pub mod pass;
pub mod combinators;
pub mod laws;
