//! The commands a client sends, and their framing.

pub mod authenticate;
pub mod command;
pub mod command_type;
pub mod connect;
pub mod dissociate;
pub mod heartbeat;
pub mod packet;

pub use command::{Command, CommandView, MAX_COMMAND_LEN};
pub use command_type::{CommandType, CommandTypeError};
