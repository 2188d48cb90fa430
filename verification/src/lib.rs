//! A null block driver and the block-layer types that it is made of.

pub mod block;
pub mod device;
pub mod error;
pub mod grants;
pub mod page;
pub mod rnull;
pub mod subsys;
pub mod text;
pub mod time;
pub mod types;
