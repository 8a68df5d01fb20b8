//! Reconciliation of staking operations read from a Substrate chain explorer.

pub mod model;
pub mod codec;
pub mod text;
pub mod normalize;
pub mod retry;
pub mod store;
pub mod identity;
pub mod pipeline;
