//! A parser and model for a compact textual music-notation language.
//!
//! A document is a score: one or more bracketed voices of events (notes,
//! chords, rests and parametrized tags with nested sub-events).  Parsing
//! threads a context that carries the implicit octave and duration across
//! sibling events and registers tags by identifier; every parsed tag is
//! validated against a schema of tag definitions.

pub mod accidentals;
pub mod chord;
pub mod comment;
pub mod context;
pub mod decimal;
pub mod dots;
pub mod duration;
pub mod error;
pub mod event;
pub mod lexer;
pub mod note;
pub mod parse;
pub mod rest;
pub mod scan;
pub mod score;
pub mod tag;
pub mod tag_defs;
pub mod tag_id;
pub mod tag_param;
pub mod tag_validator;
pub mod unit;
pub mod visitor;
pub mod voice;
