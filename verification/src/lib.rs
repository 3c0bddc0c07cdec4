//! Univariate polynomials with coefficients in a field, with verified
//! ring operations and a verified division algorithm.

pub mod align;
pub mod division;
pub mod field;
pub mod laws;
pub mod model;
pub mod poly;
pub mod prime_field;
pub mod product;
pub mod sum;

pub use field::Field;
pub use poly::UniPoly;
pub use prime_field::Fp;
