//! Generator for synthetic PESEL-style national identification numbers.
//!
//! An identifier is an 11-digit string built from a birth date (two digits
//! each for year, century-adjusted month, and day), four random fill digits,
//! and a weighted checksum digit.

pub mod checksum;
pub mod cli;
pub mod date;
pub mod digits;
pub mod identifier;
pub mod rng;
