//! XML-RPC values and their rendering as XML text.

pub mod datetime;
pub mod double;
pub mod escape;
pub mod laws;
pub mod text;
pub mod value;

pub use datetime::{Date, DateTime, Time};
pub use double::DoubleText;
pub use value::Value;
