//! Verified core of a thin wrapper around two Linux networking command-line
//! tools: a bridge-management tool (`brctl`) and a generic link tool (`ip`).

mod bridge;
mod command_executor;
mod controller;
mod errors;

pub use bridge::Bridge;
pub use command_executor::CommandExecutor;
pub use command_executor::CommandOutput;
pub use command_executor::CommandRequest;
pub use controller::BridgeController;
pub use controller::spec_create_plan;
pub use controller::spec_delete_plan;
pub use controller::spec_lookup_by_id;
pub use errors::CommandError;
pub mod parse;
pub mod text;

