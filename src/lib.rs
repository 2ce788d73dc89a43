//! Cross-chain fungible asset transfers: a verified planner that validates a
//! transfer request, classifies its route by the reserves of the assets, and
//! builds the instruction programs that move the assets to the destination.

pub mod location;
pub mod asset;
pub mod program;
pub mod pallet;
pub mod native_barrier;
pub mod xcm_transfer;
