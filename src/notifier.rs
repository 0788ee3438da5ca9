//! Notification messages and the data of the channels that deliver them;
//! the delivery itself is done outside the library.

pub mod command_executor;
pub mod ifttt_webhook;
pub mod message;
pub mod message_format;
pub mod message_formatter;
pub mod stdout_printer;

pub use self::message::Message;
