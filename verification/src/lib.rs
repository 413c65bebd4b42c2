//! A memoizing cache around a single-argument computation, together with
//! the small function-composition and Kleisli-composition utilities that
//! it is meant to be combined with.

pub mod cache;
pub mod compose;
pub mod kleisli;
