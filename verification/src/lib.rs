//! Language profiles for structural search.
//!
//! One matching engine serves many grammars. What differs between languages
//! is gathered here: which grammar parses the language, which node kinds are
//! trivia, which character introduces a capture in a query, and how the
//! parse of a query fragment is turned into a pattern.
//!
//! - [`meta_var`]: reading one token as a capture.
//! - [`syntax`]: syntax trees as plain data.
//! - [`grammar`]: the grammars and the parser, taken on trust.
//! - [`pattern`]: normalizing the parse of a fragment.
//! - [`profile`]: a grammar with its rules.
//! - [`registry`]: profiles under language identifiers.
//! - [`language`]: the languages that come with the library.
pub mod grammar;
pub mod language;
pub mod meta_var;
pub mod pattern;
pub mod profile;
pub mod registry;
pub mod syntax;
