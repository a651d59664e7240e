//! What holds of the router as a whole, each law for all inputs and in terms of them.

pub mod addresses;
pub mod deliveries;
pub mod inbound;
pub mod keeping;
pub mod numbers;
pub mod outbound;
pub mod routing;
pub mod settings;
pub mod texts;
pub mod views;
