//! Backend bridge of the Kind type checker: numeric codecs for names and
//! source spans, the scope resolver for surface modules, the dual term
//! encoder that turns definitions into rewrite rules, the assembly of the
//! checker program and the decoder of the engine's report.

pub mod driver;
pub mod encoder;
pub mod expr;
pub mod names;
pub mod report;
pub mod resolver;
pub mod rules;
pub mod span;
pub mod surface;
pub mod tags;
pub mod term;
pub mod validate;
