//! Checks a solver's model against its formula by translating both into a
//! proof goal for an external proof kernel and classifying the kernel's answer.

pub mod checker;
pub mod convert;
pub mod error;
pub mod escape;
pub mod lemma;
pub mod parse;
pub mod session;
pub mod spec_table;
pub mod term;
pub mod text;
pub mod translate;
pub mod validation;
