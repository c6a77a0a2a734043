pub mod types;
pub mod weights;
pub mod balances;
pub mod pallet;
pub mod laws;

pub use types::{
    AccountId, Balance, BlockNumber, InstalmentData, Nonce, PlanData, PlanId, SubscriptionId,
    SubscriptionToUserId, Weight,
};
pub use weights::{RuntimeDbWeight, SubstrateWeight, WeightInfo};
pub use balances::{Balances, TransferError};
pub use pallet::{Config, Error, Event, Pallet};
