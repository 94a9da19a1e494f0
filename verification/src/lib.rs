//! Federation metadata resolution for GraphQL schema elements.
//!
//! Given a reference to a field definition, a type definition, or an object
//! type definition, this crate determines whether that element participates
//! in cross-service federation and returns a structured description of its
//! federation directives (`@key`, `@external`, `@requires`, `@provides`,
//! `@extends`) instead of raw directive syntax.

pub mod federation;
pub mod model;
pub mod selection;
