//! The traits of this library, for one import.

pub use crate::command_ext::{CommandExt, ExitStatusExt};
pub use crate::result_ext::{ErrorExt, ResultExt};
