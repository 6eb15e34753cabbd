//! Exact rational numbers with an arbitrary-size numerator and denominator, for formulas
//! written the way they read on paper: no casts, widening, rounding or overflow.
//!
//! A [`Number`] is held in lowest terms; its view is the pair of its numerator and its
//! positive denominator, and every contract below speaks of that pair.

pub mod natural;
pub mod ratio;
mod number;
mod malachite;
pub mod ops;
mod lhs_ops;
pub mod from;
pub mod literal;
pub mod try_into;
pub mod order;
mod signed;
pub mod rational_varint;
pub mod typical;
pub mod parse;
pub mod format;
pub mod laws;

pub use literal::LiteralError;
pub use number::Number;
pub use ops::IntoNumber;
pub use parse::parse_decimal_exponent;
pub use try_into::TryFromNumberError;
