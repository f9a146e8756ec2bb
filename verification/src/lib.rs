//! A micro-templating engine for HTML-like documents.
//!
//! A template holds parameter blocks (`{{ name : type, ... }}`) and declaration
//! blocks (`{{@ name : type = value, ... }}`). It is parsed with a small
//! position-tracking combinator engine, compiled into an ordered list of
//! replacement instructions, and rendered against a map of named, typed values.
//!
//! The modules, leaves first: [`parser`], [`combinators`] and [`repetition`]
//! are the combinator engine; [`grammar`] says what the language is and
//! [`balsa_parser`] parses it; [`balsa_compiler`] turns blocks into
//! instructions; [`balsa_renderer`] replays the instructions; [`template`]
//! holds the two entry points, [`compile`] and [`render`].

pub mod balsa_compiler;
pub mod balsa_parser;
pub mod balsa_renderer;
pub mod balsa_type_cast;
pub mod balsa_types;
pub mod combinators;
pub mod errors;
pub mod grammar;
pub mod ordering;
pub mod parameter_names;
pub mod parameters_builder;
pub mod parser;
pub mod repetition;
pub mod string_map;
pub mod template;
pub mod text;
pub mod validators;

pub use crate::balsa_types::{BalsaFloat, BalsaType, BalsaValue};
pub use crate::errors::BalsaError;
pub use crate::parameters_builder::{AsParameters, BalsaParameters};
pub use crate::template::{
    compile, render, Balsa, BalsaBuilder, BalsaResult, BalsaTemplate, Template, TypedTemplate,
};
