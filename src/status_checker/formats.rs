//! Turns a status difference into the text of a notification, from
//! user-supplied messages and templates.

use crate::models::players_text;
use crate::status_checker::checker::{DifferenceModel, StatusDifference};
use std::fmt::Write;
use vstd::prelude::*;
use vstd::string::StringExecFns;

verus! {

/// Failures while rendering a notification.
#[derive(Debug, PartialEq, Eq)]
pub enum Error {
    FormatError(String),
}

/// What `strfmt::strfmt` returns for a template and the variables named
/// `keys` with the values `values`: the text, or the text of its error.
pub uninterp spec fn strfmt_of(
    fmt: Seq<char>,
    keys: Seq<Seq<char>>,
    values: Seq<Seq<char>>,
) -> Result<Seq<char>, Seq<char>>;

/// Relies on `strfmt::strfmt` over a map from each key to its value: the
/// result, or the `Display` text of its error, depends on the template and
/// the variables alone.
#[verifier::external_body]
pub(crate) fn fill_template(fmt: &str, keys: &Vec<String>, values: &Vec<String>) -> (r: Result<
    String,
    String,
>)
    ensures
        match strfmt_of(
            fmt@,
            keys@.map_values(|k: String| k@),
            values@.map_values(|v: String| v@),
        ) {
            Ok(t) => r matches Ok(s) && s@ == t,
            Err(e) => r matches Err(m) && m@ == e,
        },
{
    let vars: std::collections::HashMap<String, String> = keys.iter().cloned().zip(
        values.iter().cloned(),
    ).collect();
    strfmt::strfmt(fmt, &vars).map_err(|e| e.to_string())
}

/// Relies on `chrono::Local::now` and its `format`: the local time written
/// with a strftime-style template, or `None` when the template holds an
/// invalid specifier. Nothing is promised of the text: it depends on the
/// clock.
#[verifier::external_body]
pub(crate) fn local_time_text(fmt: &str) -> (r: Option<String>) {
    let mut text = String::new();
    match write!(text, "{}", chrono::Local::now().format(fmt)) {
        Ok(()) => Some(text),
        Err(_) => None,
    }
}

/// The decimal digit `d`.
pub open spec fn digit(d: nat) -> char {
    (48 + d) as char
}

/// Decimal notation of `n`: no sign, no leading zero.
pub open spec fn decimal(n: nat) -> Seq<char>
    decreases n,
{
    if n < 10 {
        seq![digit(n)]
    } else {
        decimal(n / 10) + seq![digit(n % 10)]
    }
}

/// Relies on `ToString` of `u32`, which writes its decimal notation.
#[verifier::external_body]
pub(crate) fn decimal_text(n: u32) -> (r: String)
    ensures
        r@ == decimal(n as nat),
{
    n.to_string()
}

/// Name of the template variable for a list of players.
pub open spec fn players_key() -> Seq<char> {
    seq!['p', 'l', 'a', 'y', 'e', 'r', 's']
}

/// Name of the template variable for the online count.
pub open spec fn count_key() -> Seq<char> {
    seq!['c', 'o', 'u', 'n', 't']
}

pub open spec fn newline() -> Seq<char> {
    seq!['\n']
}

/// A template filled with a list of players.
pub open spec fn players_line(fmt: Seq<char>, text: Seq<char>) -> Result<Seq<char>, Seq<char>> {
    strfmt_of(fmt, seq![players_key()], seq![text])
}

/// A template filled with the online count and a list of players.
pub open spec fn current_line(fmt: Seq<char>, count: u32, text: Seq<char>) -> Result<
    Seq<char>,
    Seq<char>,
> {
    strfmt_of(fmt, seq![count_key(), players_key()], seq![decimal(count as nat), text])
}

/// The line of a joined or left list: nothing when `empty`, else the filled
/// template and a newline.
pub open spec fn optional_line(fmt: Seq<char>, empty: bool, text: Seq<char>) -> Result<
    Seq<char>,
    Seq<char>,
> {
    if empty {
        Ok(Seq::empty())
    } else {
        match players_line(fmt, text) {
            Ok(line) => Ok(line + newline()),
            Err(e) => Err(e),
        }
    }
}

/// Which notice is written.
#[derive(PartialEq, Eq, Clone, Copy, Structural)]
pub enum NoticeKind {
    PlayerChange,
    Recover,
    Down,
}

/// The text of a notice after its time line: for a player change the
/// joined and left lines (each left out when its list is empty) and the
/// current line; for a recovery its message and the current line; for an
/// outage its message. A template's error ends the text.
pub open spec fn notice_text(
    templates: Templates,
    kind: NoticeKind,
    online_count: u32,
    joined_empty: bool,
    left_empty: bool,
    joined: Seq<char>,
    left: Seq<char>,
    current: Seq<char>,
) -> Result<Seq<char>, Seq<char>> {
    match kind {
        NoticeKind::PlayerChange => match optional_line(templates.join_fmt, joined_empty, joined) {
            Err(e) => Err(e),
            Ok(a) => match optional_line(templates.leave_fmt, left_empty, left) {
                Err(e) => Err(e),
                Ok(b) => match current_line(templates.players_fmt, online_count, current) {
                    Err(e) => Err(e),
                    Ok(c) => Ok(a + b + c),
                },
            },
        },
        NoticeKind::Recover => match current_line(templates.players_fmt, online_count, current) {
            Err(e) => Err(e),
            Ok(c) => Ok(templates.recover_msg + newline() + c),
        },
        NoticeKind::Down => Ok(templates.down_msg),
    }
}

/// The text of a notification after its time line, given the texts of the
/// joined, left and current player lists.
pub open spec fn body_text(
    templates: Templates,
    d: DifferenceModel,
    joined: Seq<char>,
    left: Seq<char>,
    current: Seq<char>,
) -> Result<Seq<char>, Seq<char>> {
    match d {
        DifferenceModel::PlayerChange { online_count, joined_players, left_players, .. } => notice_text(
            templates,
            NoticeKind::PlayerChange,
            online_count,
            joined_players.dom() == Set::<Seq<char>>::empty(),
            left_players.dom() == Set::<Seq<char>>::empty(),
            joined,
            left,
            current,
        ),
        DifferenceModel::Recover { online_count, .. } => notice_text(
            templates,
            NoticeKind::Recover,
            online_count,
            true,
            true,
            joined,
            left,
            current,
        ),
        DifferenceModel::Down { .. } => notice_text(
            templates,
            NoticeKind::Down,
            0,
            true,
            true,
            joined,
            left,
            current,
        ),
        DifferenceModel::NoChange { .. } => Ok(Seq::empty()),
    }
}

/// `joined`, `left` and `current` show the player lists of `d`.
pub open spec fn list_texts(
    d: DifferenceModel,
    joined: Seq<char>,
    left: Seq<char>,
    current: Seq<char>,
) -> bool {
    match d {
        DifferenceModel::PlayerChange { current_players, joined_players, left_players, .. } => {
            players_text(joined_players, joined) && players_text(left_players, left)
                && players_text(current_players, current)
        },
        DifferenceModel::Recover { current_players, .. } => players_text(current_players, current),
        _ => true,
    }
}

/// The messages and templates, as mathematical values.
pub ghost struct Templates {
    pub recover_msg: Seq<char>,
    pub down_msg: Seq<char>,
    pub join_fmt: Seq<char>,
    pub leave_fmt: Seq<char>,
    pub players_fmt: Seq<char>,
    pub time_fmt: Seq<char>,
}

/// The notification for `d` after the time line `head`: `None` for no
/// change, else the text or the template's error.
pub open spec fn notification(
    templates: Templates,
    d: DifferenceModel,
    head: Seq<char>,
    joined: Seq<char>,
    left: Seq<char>,
    current: Seq<char>,
) -> Result<Option<Seq<char>>, Seq<char>> {
    if d is NoChange {
        Ok(None)
    } else {
        match body_text(templates, d, joined, left, current) {
            Ok(b) => Ok(Some(head + b)),
            Err(e) => Err(e),
        }
    }
}

/// `r` carries `expected`, the error text as a `FormatError`.
pub open spec fn renders_as(r: Result<Option<String>, Error>, expected: Result<Option<Seq<char>>, Seq<char>>) -> bool {
    match expected {
        Ok(None) => r matches Ok(None),
        Ok(Some(t)) => r matches Ok(Some(s)) && s@ == t,
        Err(e) => r matches Err(Error::FormatError(m)) && m@ == e,
    }
}

/// Messages and templates of notifications. `{players}` in a template
/// stands for a list of player names, `{count}` for the online count; an
/// empty `time_fmt` leaves out the time line.
pub struct StatusFormats {
    pub recover_msg: String,
    pub down_msg: String,
    pub join_fmt: String,
    pub leave_fmt: String,
    pub players_fmt: String,
    pub time_fmt: String,
}

impl View for StatusFormats {
    type V = Templates;

    open spec fn view(&self) -> Templates {
        Templates {
            recover_msg: self.recover_msg@,
            down_msg: self.down_msg@,
            join_fmt: self.join_fmt@,
            leave_fmt: self.leave_fmt@,
            players_fmt: self.players_fmt@,
            time_fmt: self.time_fmt@,
        }
    }
}

/// Fills `fmt` with the list of players `text` and appends the result.
fn build_players(buffer: &mut String, fmt: &str, text: &String) -> (r: Result<(), Error>)
    ensures
        match players_line(fmt@, text@) {
            Ok(line) => r is Ok && final(buffer)@ == old(buffer)@ + line,
            Err(e) => r matches Err(Error::FormatError(m)) && m@ == e,
        },
{
    let players_name: &str = "players";
    proof {
        reveal_strlit("players");
        assert(players_name@ =~= players_key());
    }
    let mut keys: Vec<String> = Vec::new();
    keys.push(players_name.to_owned());
    let mut values: Vec<String> = Vec::new();
    values.push(text.clone());
    proof {
        assert(keys@.map_values(|k: String| k@) =~= seq![players_key()]);
        assert(values@.map_values(|v: String| v@) =~= seq![text@]);
    }
    match fill_template(fmt, &keys, &values) {
        Ok(line) => {
            buffer.append(line.as_str());
            Ok(())
        },
        Err(m) => Err(Error::FormatError(m)),
    }
}

/// Appends the line of a joined or left list, unless the list is empty.
fn optional_players(buffer: &mut String, fmt: &str, empty: bool, text: &String) -> (r: Result<
    (),
    Error,
>)
    ensures
        match optional_line(fmt@, empty, text@) {
            Ok(line) => r is Ok && final(buffer)@ == old(buffer)@ + line,
            Err(e) => r matches Err(Error::FormatError(m)) && m@ == e,
        },
{
    if empty {
        assert(buffer@ =~= buffer@ + Seq::<char>::empty());
        return Ok(());
    }
    let r = build_players(buffer, fmt, text);
    if r.is_ok() {
        proof {
            reveal_strlit("\n");
        }
        buffer.append("\n");
    }
    r
}

/// Appends the line of the current players and the online count.
fn build_current_players(buffer: &mut String, fmt: &str, online_count: u32, text: &String) -> (r:
    Result<(), Error>)
    ensures
        match current_line(fmt@, online_count, text@) {
            Ok(line) => r is Ok && final(buffer)@ == old(buffer)@ + line,
            Err(e) => r matches Err(Error::FormatError(m)) && m@ == e,
        },
{
    let players_name: &str = "players";
    let count_name: &str = "count";
    proof {
        reveal_strlit("players");
        reveal_strlit("count");
        assert(players_name@ =~= players_key());
        assert(count_name@ =~= count_key());
    }
    let mut keys: Vec<String> = Vec::new();
    keys.push(count_name.to_owned());
    keys.push(players_name.to_owned());
    let mut values: Vec<String> = Vec::new();
    values.push(decimal_text(online_count));
    values.push(text.clone());
    proof {
        assert(keys@.map_values(|k: String| k@) =~= seq![count_key(), players_key()]);
        assert(values@.map_values(|v: String| v@) =~= seq![decimal(online_count as nat), text@]);
    }
    match fill_template(fmt, &keys, &values) {
        Ok(line) => {
            buffer.append(line.as_str());
            Ok(())
        },
        Err(m) => Err(Error::FormatError(m)),
    }
}

/// Appends the text of a notice after its time line, as `notice_text`
/// says.
pub(crate) fn build_notice(
    templates: &StatusFormats,
    buffer: &mut String,
    kind: NoticeKind,
    online_count: u32,
    joined_empty: bool,
    left_empty: bool,
    joined: &String,
    left: &String,
    current: &String,
) -> (r: Result<(), Error>)
    ensures
        match notice_text(
            templates@,
            kind,
            online_count,
            joined_empty,
            left_empty,
            joined@,
            left@,
            current@,
        ) {
            Ok(b) => r is Ok && final(buffer)@ == old(buffer)@ + b,
            Err(e) => r matches Err(Error::FormatError(m)) && m@ == e,
        },
{
    proof {
        reveal_strlit("\n");
    }
    let ghost start = buffer@;
    match kind {
        NoticeKind::PlayerChange => {
            let r1 = optional_players(buffer, templates.join_fmt.as_str(), joined_empty, joined);
            let ghost after_join = buffer@;
            if let Err(e) = r1 {
                return Err(e);
            }
            let r2 = optional_players(buffer, templates.leave_fmt.as_str(), left_empty, left);
            let ghost after_leave = buffer@;
            if let Err(e) = r2 {
                return Err(e);
            }
            let r3 = build_current_players(
                buffer,
                templates.players_fmt.as_str(),
                online_count,
                current,
            );
            if r3.is_ok() {
                assert(buffer@ =~= start + (after_join.skip(start.len() as int) + after_leave.skip(
                    after_join.len() as int,
                ) + buffer@.skip(after_leave.len() as int)));
            }
            r3
        },
        NoticeKind::Recover => {
            buffer.append(templates.recover_msg.as_str());
            buffer.append("\n");
            let ghost before = buffer@;
            let r = build_current_players(
                buffer,
                templates.players_fmt.as_str(),
                online_count,
                current,
            );
            if r.is_ok() {
                assert(buffer@ =~= start + (templates.recover_msg@ + newline() + buffer@.skip(
                    before.len() as int,
                )));
            }
            r
        },
        NoticeKind::Down => {
            buffer.append(templates.down_msg.as_str());
            Ok(())
        },
    }
}

/// Appends the text of a notification after its time line, given the
/// texts of the joined, left and current player lists.
fn build_body(
    templates: &StatusFormats,
    buffer: &mut String,
    status_difference: &StatusDifference,
    joined: &String,
    left: &String,
    current: &String,
) -> (r: Result<(), Error>)
    ensures
        match body_text(templates@, status_difference@, joined@, left@, current@) {
            Ok(b) => r is Ok && final(buffer)@ == old(buffer)@ + b,
            Err(e) => r matches Err(Error::FormatError(m)) && m@ == e,
        },
{
    match status_difference {
        StatusDifference::PlayerChange { online_count, joined_players, left_players, .. } => {
            build_notice(
                templates,
                buffer,
                NoticeKind::PlayerChange,
                *online_count,
                joined_players.is_empty(),
                left_players.is_empty(),
                joined,
                left,
                current,
            )
        },
        StatusDifference::Recover { online_count, .. } => build_notice(
            templates,
            buffer,
            NoticeKind::Recover,
            *online_count,
            true,
            true,
            joined,
            left,
            current,
        ),
        StatusDifference::Down { .. } => build_notice(
            templates,
            buffer,
            NoticeKind::Down,
            0,
            true,
            true,
            joined,
            left,
            current,
        ),
        StatusDifference::NoChange { .. } => {
            assert(buffer@ =~= buffer@ + Seq::<char>::empty());
            Ok(())
        },
    }
}

impl StatusFormats {
    /// The notification for `status_difference`, its time line showing the
    /// local time in `time_fmt` unless that is empty: `None` when there is
    /// nothing to report.
    /// Holds of every result `r` that the clock may lead `format` to: `None`
    /// for no change; with an empty `time_fmt` the notification without a
    /// time line; otherwise the notification after some time line, or the
    /// error of an invalid time template.
    pub open spec fn formats_as(
        &self,
        status_difference: StatusDifference,
        r: Result<Option<String>, Error>,
    ) -> bool {
        &&& (status_difference@ is NoChange ==> (r matches Ok(None)))
        &&& self.time_fmt@.len() == 0 ==> exists|
            joined: Seq<char>,
            left: Seq<char>,
            current: Seq<char>,
        |
            list_texts(status_difference@, joined, left, current) && renders_as(
                r,
                notification(self@, status_difference@, Seq::empty(), joined, left, current),
            )
        &&& (self.time_fmt@.len() > 0 ==> (exists|
            time: Seq<char>,
            joined: Seq<char>,
            left: Seq<char>,
            current: Seq<char>,
        |
            list_texts(status_difference@, joined, left, current) && renders_as(
                r,
                notification(self@, status_difference@, time + newline(), joined, left, current),
            )) || (r matches Err(Error::FormatError(m)) && m@ == "invalid time format"@))
    }

    /// The notification for `status_difference`, its time line showing the
    /// local time in `time_fmt` unless that is empty: `None` when there is
    /// nothing to report.
    pub fn format(&self, status_difference: &StatusDifference) -> (r: Result<Option<String>, Error>)
        ensures
            self.formats_as(*status_difference, r),
    {
        if let StatusDifference::NoChange { .. } = status_difference {
            let r = Ok(None);
            let ghost none = Seq::<char>::empty();
            assert(list_texts(status_difference@, none, none, none) && renders_as(
                r,
                notification(self@, status_difference@, none, none, none, none),
            ));
            assert(list_texts(status_difference@, none, none, none) && renders_as(
                r,
                notification(self@, status_difference@, none + newline(), none, none, none),
            ));
            return r;
        }
        if self.time_fmt.as_str().is_empty() {
            return self.format_at(status_difference, "");
        }
        match local_time_text(self.time_fmt.as_str()) {
            Some(time) => self.format_at(status_difference, time.as_str()),
            None => Err(Error::FormatError("invalid time format".to_owned())),
        }
    }

    /// The notification for `status_difference`, with `time_text` as the
    /// time line unless `time_fmt` is empty: `None` when there is nothing to
    /// report.
    pub fn format_at(&self, status_difference: &StatusDifference, time_text: &str) -> (r: Result<
        Option<String>,
        Error,
    >)
        ensures
            exists|joined: Seq<char>, left: Seq<char>, current: Seq<char>|
                list_texts(status_difference@, joined, left, current) && renders_as(
                    r,
                    notification(
                        self@,
                        status_difference@,
                        if self.time_fmt@.len() == 0 {
                            Seq::empty()
                        } else {
                            time_text@ + newline()
                        },
                        joined,
                        left,
                        current,
                    ),
                ),
    {
        proof {
            reveal_strlit("\n");
        }
        let (joined, left, current) = match status_difference {
            StatusDifference::PlayerChange {
                current_players,
                joined_players,
                left_players,
                ..
            } => (joined_players.to_string(), left_players.to_string(), current_players.to_string()),
            StatusDifference::Recover { current_players, .. } => (
                String::new(),
                String::new(),
                current_players.to_string(),
            ),
            _ => (String::new(), String::new(), String::new()),
        };
        let ghost head = if self.time_fmt@.len() == 0 {
            Seq::<char>::empty()
        } else {
            time_text@ + newline()
        };
        assert(list_texts(status_difference@, joined@, left@, current@));
        let r = if let StatusDifference::NoChange { .. } = status_difference {
            Ok(None)
        } else {
            let mut buffer = String::new();
            if !self.time_fmt.as_str().is_empty() {
                buffer.append(time_text);
                buffer.append("\n");
            }
            assert(buffer@ =~= head);
            match build_body(self, &mut buffer, status_difference, &joined, &left, &current) {
                Ok(()) => Ok(Some(buffer)),
                Err(e) => Err(e),
            }
        };
        assert(renders_as(
            r,
            notification(self@, status_difference@, head, joined@, left@, current@),
        ));
        r
    }
}

} // verus!
