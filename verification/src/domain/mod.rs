//! The values the core works on and the rules that read them.

pub mod error;
pub mod models;
pub mod utils;
pub mod validation;
