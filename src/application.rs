//! What the poll loop does with each difference.

use crate::config::Config;
use crate::status_checker::checker::{DifferenceModel, Status, StatusDifference, StatusModel};
use crate::status_checker::formats::{Error as FormatError, StatusFormats, Templates};
use vstd::prelude::*;

verus! {

/// The outcome of one poll for the notification channels.
#[derive(Debug, PartialEq, Eq)]
pub enum Outcome {
    /// The server is still unavailable; only worth a log line.
    ServerUnavailable(String),
    /// The notification could not be rendered.
    FormatFailed(String),
    /// Nothing to send.
    Nothing,
    /// Send this text through every channel.
    Notify(String),
}

/// The outcome that a result of `StatusFormats::format` leads to.
pub open spec fn outcome_of_format(r: Result<Option<String>, FormatError>, outcome: Outcome) -> bool {
    match r {
        Ok(Some(text)) => outcome matches Outcome::Notify(t) && t@ == text@,
        Ok(None) => outcome is Nothing,
        Err(FormatError::FormatError(m)) => outcome matches Outcome::FormatFailed(t) && t@ == m@,
    }
}

/// The notifier: its settings, and what it does with each poll.
pub struct Application {
    config: Config,
}

impl Application {
    pub fn new(config: Config) -> (r: Self)
        ensures
            r.spec_config() == config,
    {
        Self { config }
    }

    pub closed spec fn spec_config(&self) -> Config {
        self.config
    }

    pub fn config(&self) -> (r: &Config)
        ensures
            *r == self.spec_config(),
    {
        &self.config
    }

    /// The formats of the settings.
    pub fn status_formats(&self) -> (r: StatusFormats)
        ensures
            r@ == (Templates {
                recover_msg: self.spec_config().formats.recover_msg@,
                down_msg: self.spec_config().formats.down_msg@,
                join_fmt: self.spec_config().formats.join_fmt@,
                leave_fmt: self.spec_config().formats.leave_fmt@,
                players_fmt: self.spec_config().formats.players_fmt@,
                time_fmt: self.spec_config().formats.time_fmt@,
            }),
    {
        let formats = &self.config.formats;
        StatusFormats {
            recover_msg: formats.recover_msg.clone(),
            down_msg: formats.down_msg.clone(),
            join_fmt: formats.join_fmt.clone(),
            leave_fmt: formats.leave_fmt.clone(),
            players_fmt: formats.players_fmt.clone(),
            time_fmt: formats.time_fmt.clone(),
        }
    }

    /// What to do with `status_difference`: a continuing unavailability is
    /// only logged; anything else, an outage included, is rendered and, when
    /// there is text, sent.
    pub fn outcome(status_formats: &StatusFormats, status_difference: &StatusDifference) -> (r:
        Outcome)
        ensures
            status_difference@ matches DifferenceModel::NoChange {
                latest_status: StatusModel::Unavailable { reason },
            } ==> r matches Outcome::ServerUnavailable(t) && t@ == reason,
            !(status_difference@ matches DifferenceModel::NoChange {
                latest_status: StatusModel::Unavailable { .. },
            }) ==> exists|f: Result<Option<String>, FormatError>|
                status_formats.formats_as(*status_difference, f) && #[trigger] outcome_of_format(
                    f,
                    r,
                ),
    {
        if let StatusDifference::NoChange { latest_status: Status::Unavailable { reason } } =
            status_difference {
            return Outcome::ServerUnavailable(reason.clone());
        }
        let formatted = status_formats.format(status_difference);
        let r = match &formatted {
            Ok(Some(text)) => Outcome::Notify(text.clone()),
            Ok(None) => Outcome::Nothing,
            Err(FormatError::FormatError(m)) => Outcome::FormatFailed(m.clone()),
        };
        assert(outcome_of_format(formatted, r));
        r
    }
}

} // verus!
