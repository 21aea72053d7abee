//! A personal time tracker: completed and running intervals, their line
//! formats, and the rules by which the list of running intervals changes.

pub mod entry;
pub mod error;
pub mod export;
pub mod line;
pub mod running;
pub mod running_log;
pub mod timestamp;

pub use entry::Entry;
pub use error::{DateError, LogError, ParseError};
pub use running::RunningEntry;
pub use timestamp::Timestamp;
