//! Generation and exact evaluation of randomized arithmetic practice tasks.
//!
//! A task pairs a rendered infix expression (flat, no parentheses) with its
//! numeric result, computed by precedence-ordered reduction and rounded
//! half-away-from-zero. Values are exact scaled rationals; division by zero
//! and overflow of the fixed-width representation propagate as a non-finite
//! result instead of a panic.

pub mod ops;
pub mod rat;
pub mod rounding;
pub mod eval;
pub mod render;
mod rng;
pub mod task;

pub use ops::Operator;
pub use rat::Rat;
pub use rat::Value;
pub use task::ArithmeticTask;
pub use task::Config;
