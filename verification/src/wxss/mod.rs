//! The WXSS style sheet parser.

pub mod lexer;
pub mod token;
pub mod error;
pub mod state;
pub mod basic;
pub mod list;
pub mod group;
pub mod rule;
pub mod property;
pub mod media;
pub mod sheet;
pub mod location;
