//! Compiles a game-launcher mod-preset document into a normalized, sorted,
//! semicolon-joined identifier string, plus a diagnostic naming any mandatory
//! add-ons that are absent.
//!
//! The pipeline: extract raw display names from the markup document, resolve
//! official-content entries through a lookup table, normalize community names
//! into `@`-prefixed identifier tokens, drop identifiers the caller wants
//! suppressed, sort case-insensitively, then format the result and report
//! missing required identifiers.

pub mod extract;
pub mod format;
pub mod ignore;
pub mod normalize;
pub mod pipeline;
pub mod require;
pub mod resolve;
pub mod sort;
pub mod text;
