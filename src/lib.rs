pub mod contract;
pub mod error;
pub mod laws;
pub mod msg;
pub mod registry;
pub mod state;

pub use crate::error::ContractError;
