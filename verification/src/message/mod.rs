//! Messages and their virtual tables.

pub mod any;
pub mod limited_write;
pub mod lookup;
pub mod protocol;
pub mod repr;

pub use self::any::AnyMessage;
pub use self::repr::{MessageTypeId, MessageVTable};
