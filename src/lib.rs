//! Hyperoperations, the Ackermann-Péter function and Graham-style towers over
//! unbounded natural numbers, with their results proved against the
//! mathematical definitions.
pub mod ackermann;
pub mod big;
pub mod graham;
pub mod hyper;
pub mod power;

pub use ackermann::A;
pub use graham::Graham;
pub use hyper::H;
