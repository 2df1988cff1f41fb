//! Generates, for an enumeration of annotated routes, the source text of a
//! resolver that maps each variant to its HTTP method and URL.
//!
//! A variant is annotated with a method and a URL template. The placeholders
//! of the template, each a name in braces, are filled with the fields of the
//! variant: the first field fills the first placeholder, and so on.

pub mod annotation;
pub mod branch;
pub mod derive;
pub mod description;
pub mod error;
pub mod literal;
pub mod placeholder;
pub mod substitution;
pub mod synthesis;
