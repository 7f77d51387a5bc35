//! A command-line unit-conversion library: a closed unit model over two
//! measurement dimensions (temperature and length), an exact conversion
//! engine that routes values through a per-dimension pivot unit, and a
//! JSON-backed ledger of past conversions.
//!
//! Numeric values are exact decimal fractions (`Rational`), so every
//! conversion formula is computed and specified exactly; the surrounding
//! binary decides how values enter (command-line text) and leave
//! (formatted display strings, the history file).

pub mod cli;
pub mod conversion;
pub mod decimal;
pub mod history;
pub mod numfmt;
pub mod rational;
pub mod scan;
pub mod unit;
