//! Rewrites `async fn`s declared in a trait, and defined in its implementations,
//! into plain methods that return a per-method associated type, bound in each
//! implementation to an opaque type alias.
pub mod syntax;
pub mod lifetimes;
pub mod annotation;
pub mod text;
pub mod slot;
pub mod rewrite;
pub mod laws;
pub mod render;
pub mod expand;
