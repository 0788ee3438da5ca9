//! The difference engine: consecutive status snapshots become one
//! difference, and the formats that turn a difference into text.

pub mod checker;
pub mod formats;

pub use self::checker::{Status, StatusChecker, StatusDifference};
pub use self::formats::{Error as FormatError, StatusFormats};
