//! A second form of the notice renderer, with its own error type.

use crate::notifier::message_format::{
    as_status_formats, message_text, render_message, render_message_now, time_head, Message,
};
use crate::status_checker::formats::{self, newline, Templates};
use vstd::prelude::*;

verus! {

/// Failures while rendering a notice.
#[derive(Debug, PartialEq, Eq)]
pub enum Error {
    MessageFormatError(String),
}

/// Messages and templates of notices; see `StatusFormats` for their
/// meaning.
pub struct MessageFormatter {
    pub recover_msg: String,
    pub down_msg: String,
    pub join_fmt: String,
    pub leave_fmt: String,
    pub players_fmt: String,
    pub time_fmt: String,
}

impl View for MessageFormatter {
    type V = Templates;

    open spec fn view(&self) -> Templates {
        Templates {
            recover_msg: self.recover_msg@,
            down_msg: self.down_msg@,
            join_fmt: self.join_fmt@,
            leave_fmt: self.leave_fmt@,
            players_fmt: self.players_fmt@,
            time_fmt: self.time_fmt@,
        }
    }
}

impl MessageFormatter {
    /// The notice for `message` after the local time in `time_fmt`, unless
    /// that is empty.
    pub fn format(&self, message: &Message) -> (r: Result<String, Error>)
        ensures
            self@.time_fmt.len() == 0 ==> match message_text(self@, *message, Seq::empty()) {
                Ok(t) => r matches Ok(s) && s@ == t,
                Err(e) => r matches Err(Error::MessageFormatError(m)) && m@ == e,
            },
            self@.time_fmt.len() > 0 ==> (exists|time: Seq<char>|
                match #[trigger] message_text(self@, *message, time + newline()) {
                    Ok(t) => r matches Ok(s) && s@ == t,
                    Err(e) => r matches Err(Error::MessageFormatError(m)) && m@ == e,
                }) || (r matches Err(Error::MessageFormatError(m)) && m@ == "invalid time format"@),
    {
        let templates = as_status_formats(
            &self.recover_msg,
            &self.down_msg,
            &self.join_fmt,
            &self.leave_fmt,
            &self.players_fmt,
            &self.time_fmt,
        );
        match render_message_now(&templates, message) {
            Ok(s) => Ok(s),
            Err(formats::Error::FormatError(m)) => Err(Error::MessageFormatError(m)),
        }
    }

    /// The notice for `message` with `time_text` as its time line, unless
    /// `time_fmt` is empty.
    pub fn format_at(&self, message: &Message, time_text: &str) -> (r: Result<String, Error>)
        ensures
            match message_text(self@, *message, time_head(self@.time_fmt, time_text@)) {
                Ok(t) => r matches Ok(s) && s@ == t,
                Err(e) => r matches Err(Error::MessageFormatError(m)) && m@ == e,
            },
    {
        let templates = as_status_formats(
            &self.recover_msg,
            &self.down_msg,
            &self.join_fmt,
            &self.leave_fmt,
            &self.players_fmt,
            &self.time_fmt,
        );
        match render_message(&templates, message, time_text) {
            Ok(s) => Ok(s),
            Err(formats::Error::FormatError(m)) => Err(Error::MessageFormatError(m)),
        }
    }
}

} // verus!
