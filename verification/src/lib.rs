//! Extracts SQL statements embedded in iBATIS / MyBatis mapping XML files
//! and renders them as one normalized, dialect-correct SQL script.

pub mod args;
pub mod def;
pub mod dialect;
pub mod events;
pub mod parse_helper;
pub mod pipeline;
pub mod resolve;
pub mod text;
pub mod xbatis_parser;
