//! Incremental extraction of structured fragments from free-form text.
//!
//! A fragment is introduced by a configured indicator token (such as `ID`)
//! immediately followed by a delimited region (`[...]`, `{...}`, `<...>`,
//! `(...)`, or a terminator-based tag form).  The engine drives one
//! character-level automaton per indicator over every input chunk, tracks
//! nesting depth and quoted regions, and collects each completed match as a
//! flow-map-shaped text fragment together with its source offsets.

pub mod engine;
pub mod laws;
pub mod model;
mod text;

pub use engine::cut_yaml_ident_strings;
pub use engine::Indicators;
pub use engine::Result;
pub use engine::YogurtYaml;
pub use model::IdentRange;
pub use model::SemanticPosition;
