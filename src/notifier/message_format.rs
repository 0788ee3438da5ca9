//! Notices built from lists of player names given in display order.

use crate::models::{join_names, join_names_text};
use crate::status_checker::formats::{
    self, build_notice, local_time_text, newline, notice_text, NoticeKind, StatusFormats, Templates,
};
use vstd::prelude::*;
use vstd::string::StringExecFns;

verus! {

/// Failures while rendering a notice.
#[derive(Debug, PartialEq, Eq)]
pub enum Error {
    FormatError(String),
}

/// A notice to render; the player lists are names in display order.
pub enum Message<'a> {
    PlayerChange {
        online_count: u32,
        current_players: &'a Vec<String>,
        joined_players: &'a Vec<String>,
        left_players: &'a Vec<String>,
    },
    Recover { online_count: u32, current_players: &'a Vec<String> },
    Down,
}

/// The names of a list, as text.
pub open spec fn names_view(names: &Vec<String>) -> Seq<Seq<char>> {
    names@.map_values(|s: String| s@)
}

/// The text of `message` after the time line `head`, or the error of a
/// template.
pub open spec fn message_text<'a>(templates: Templates, message: Message<'a>, head: Seq<char>) -> Result<
    Seq<char>,
    Seq<char>,
> {
    let body = match message {
        Message::PlayerChange { online_count, current_players, joined_players, left_players } => {
            notice_text(
                templates,
                NoticeKind::PlayerChange,
                online_count,
                joined_players.len() == 0,
                left_players.len() == 0,
                join_names(names_view(joined_players)),
                join_names(names_view(left_players)),
                join_names(names_view(current_players)),
            )
        },
        Message::Recover { online_count, current_players } => notice_text(
            templates,
            NoticeKind::Recover,
            online_count,
            true,
            true,
            Seq::empty(),
            Seq::empty(),
            join_names(names_view(current_players)),
        ),
        Message::Down => notice_text(
            templates,
            NoticeKind::Down,
            0,
            true,
            true,
            Seq::empty(),
            Seq::empty(),
            Seq::empty(),
        ),
    };
    match body {
        Ok(b) => Ok(head + b),
        Err(e) => Err(e),
    }
}

/// The time line for `time_fmt` showing `time_text`: nothing when the
/// template is empty.
pub open spec fn time_head(time_fmt: Seq<char>, time_text: Seq<char>) -> Seq<char> {
    if time_fmt.len() == 0 {
        Seq::empty()
    } else {
        time_text + newline()
    }
}

/// Renders `message` with `templates` after the time line of `time_text`.
pub(crate) fn render_message(templates: &StatusFormats, message: &Message, time_text: &str) -> (r:
    Result<String, formats::Error>)
    ensures
        match message_text(templates@, *message, time_head(templates@.time_fmt, time_text@)) {
            Ok(t) => r matches Ok(s) && s@ == t,
            Err(e) => r matches Err(formats::Error::FormatError(m)) && m@ == e,
        },
{
    proof {
        reveal_strlit("\n");
    }
    let mut buffer = String::new();
    if !templates.time_fmt.as_str().is_empty() {
        buffer.append(time_text);
        buffer.append("\n");
    }
    let empty = String::new();
    let r = match message {
        Message::PlayerChange { online_count, current_players, joined_players, left_players } => {
            let joined = join_names_text(joined_players);
            let left = join_names_text(left_players);
            let current = join_names_text(current_players);
            build_notice(
                templates,
                &mut buffer,
                NoticeKind::PlayerChange,
                *online_count,
                joined_players.len() == 0,
                left_players.len() == 0,
                &joined,
                &left,
                &current,
            )
        },
        Message::Recover { online_count, current_players } => {
            let current = join_names_text(current_players);
            build_notice(
                templates,
                &mut buffer,
                NoticeKind::Recover,
                *online_count,
                true,
                true,
                &empty,
                &empty,
                &current,
            )
        },
        Message::Down => build_notice(
            templates,
            &mut buffer,
            NoticeKind::Down,
            0,
            true,
            true,
            &empty,
            &empty,
            &empty,
        ),
    };
    match r {
        Ok(()) => Ok(buffer),
        Err(e) => Err(e),
    }
}

/// Renders `message` after the local time in `templates.time_fmt`, unless
/// that is empty.
pub(crate) fn render_message_now(templates: &StatusFormats, message: &Message) -> (r: Result<
    String,
    formats::Error,
>)
    ensures
        templates@.time_fmt.len() == 0 ==> match message_text(templates@, *message, Seq::empty()) {
            Ok(t) => r matches Ok(s) && s@ == t,
            Err(e) => r matches Err(formats::Error::FormatError(m)) && m@ == e,
        },
        templates@.time_fmt.len() > 0 ==> (exists|time: Seq<char>|
            match #[trigger] message_text(templates@, *message, time + newline()) {
                Ok(t) => r matches Ok(s) && s@ == t,
                Err(e) => r matches Err(formats::Error::FormatError(m)) && m@ == e,
            }) || (r matches Err(formats::Error::FormatError(m)) && m@ == "invalid time format"@),
{
    if templates.time_fmt.as_str().is_empty() {
        return render_message(templates, message, "");
    }
    match local_time_text(templates.time_fmt.as_str()) {
        Some(time) => {
            let r = render_message(templates, message, time.as_str());
            assert(time_head(templates@.time_fmt, time@) == time@ + newline());
            r
        },
        None => Err(formats::Error::FormatError("invalid time format".to_owned())),
    }
}

/// Messages and templates of notices; see `StatusFormats` for their
/// meaning.
pub struct MessageFormat {
    pub recover_msg: String,
    pub down_msg: String,
    pub join_fmt: String,
    pub leave_fmt: String,
    pub players_fmt: String,
    pub time_fmt: String,
}

impl View for MessageFormat {
    type V = Templates;

    open spec fn view(&self) -> Templates {
        Templates {
            recover_msg: self.recover_msg@,
            down_msg: self.down_msg@,
            join_fmt: self.join_fmt@,
            leave_fmt: self.leave_fmt@,
            players_fmt: self.players_fmt@,
            time_fmt: self.time_fmt@,
        }
    }
}

/// The same messages and templates as the notification formats.
pub(crate) fn as_status_formats(
    recover_msg: &String,
    down_msg: &String,
    join_fmt: &String,
    leave_fmt: &String,
    players_fmt: &String,
    time_fmt: &String,
) -> (r: StatusFormats)
    ensures
        r@ == (Templates {
            recover_msg: recover_msg@,
            down_msg: down_msg@,
            join_fmt: join_fmt@,
            leave_fmt: leave_fmt@,
            players_fmt: players_fmt@,
            time_fmt: time_fmt@,
        }),
{
    StatusFormats {
        recover_msg: recover_msg.clone(),
        down_msg: down_msg.clone(),
        join_fmt: join_fmt.clone(),
        leave_fmt: leave_fmt.clone(),
        players_fmt: players_fmt.clone(),
        time_fmt: time_fmt.clone(),
    }
}

impl MessageFormat {
    /// The notice for `message` after the local time in `time_fmt`, unless
    /// that is empty.
    pub fn format(&self, message: &Message) -> (r: Result<String, Error>)
        ensures
            self@.time_fmt.len() == 0 ==> match message_text(self@, *message, Seq::empty()) {
                Ok(t) => r matches Ok(s) && s@ == t,
                Err(e) => r matches Err(Error::FormatError(m)) && m@ == e,
            },
            self@.time_fmt.len() > 0 ==> (exists|time: Seq<char>|
                match #[trigger] message_text(self@, *message, time + newline()) {
                    Ok(t) => r matches Ok(s) && s@ == t,
                    Err(e) => r matches Err(Error::FormatError(m)) && m@ == e,
                }) || (r matches Err(Error::FormatError(m)) && m@ == "invalid time format"@),
    {
        let templates = as_status_formats(
            &self.recover_msg,
            &self.down_msg,
            &self.join_fmt,
            &self.leave_fmt,
            &self.players_fmt,
            &self.time_fmt,
        );
        match render_message_now(&templates, message) {
            Ok(s) => Ok(s),
            Err(formats::Error::FormatError(m)) => Err(Error::FormatError(m)),
        }
    }

    /// The notice for `message` with `time_text` as its time line, unless
    /// `time_fmt` is empty.
    pub fn format_at(&self, message: &Message, time_text: &str) -> (r: Result<String, Error>)
        ensures
            match message_text(self@, *message, time_head(self@.time_fmt, time_text@)) {
                Ok(t) => r matches Ok(s) && s@ == t,
                Err(e) => r matches Err(Error::FormatError(m)) && m@ == e,
            },
    {
        let templates = as_status_formats(
            &self.recover_msg,
            &self.down_msg,
            &self.join_fmt,
            &self.leave_fmt,
            &self.players_fmt,
            &self.time_fmt,
        );
        match render_message(&templates, message, time_text) {
            Ok(s) => Ok(s),
            Err(formats::Error::FormatError(m)) => Err(Error::FormatError(m)),
        }
    }
}

} // verus!
