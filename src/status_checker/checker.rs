//! Snapshots of a server and the difference between two consecutive ones.

use crate::minecraft::json_data;
use crate::models::{entries_map, Players};
use crate::status_checker::formats::{decimal, decimal_text};
use vstd::prelude::*;
use vstd::string::StringExecFns;

verus! {

/// A server's observed availability and roster at one poll.
pub enum Status {
    Available { online_count: u32, current_players: Players },
    Unavailable { reason: String },
}

/// What a snapshot says, as mathematical values.
pub ghost enum StatusModel {
    Available { online_count: u32, current_players: Map<Seq<char>, Seq<char>> },
    Unavailable { reason: Seq<char> },
}

impl View for Status {
    type V = StatusModel;

    open spec fn view(&self) -> StatusModel {
        match self {
            Status::Available { online_count, current_players } => StatusModel::Available {
                online_count: *online_count,
                current_players: current_players@,
            },
            Status::Unavailable { reason } => StatusModel::Unavailable { reason: reason@ },
        }
    }
}

impl Status {
    /// The snapshot of a successful poll: the online count and the players
    /// of the sample, none when the server sent no sample.
    pub fn from_server_status(status: &json_data::Status) -> (r: Status)
        ensures
            r@ == (StatusModel::Available {
                online_count: status.players.online,
                current_players: match status.players.sample {
                    Some(sample) => entries_map(
                        sample@.map_values(|p: json_data::Player| (p.id@, p.name@)),
                    ),
                    None => Map::empty(),
                },
            }),
    {
        let current_players = match &status.players.sample {
            Some(sample) => Players::from_sample(sample),
            None => {
                let empty: Vec<json_data::Player> = Vec::new();
                assert(empty@.map_values(|p: json_data::Player| (p.id@, p.name@)) =~= Seq::empty());
                Players::from_sample(&empty)
            },
        };
        Status::Available { online_count: status.players.online, current_players }
    }

    /// The snapshot of a poll whose connection failed: the reason names the
    /// address.
    pub fn connect_failure(hostname: &str, port: u16) -> (r: Status)
        ensures
            r@ == (StatusModel::Unavailable {
                reason: "Couldn't connect to "@ + hostname@ + seq![':'] + decimal(port as nat),
            }),
    {
        Status::Unavailable { reason: failure_reason("Couldn't connect to ", hostname, port) }
    }

    /// The snapshot of a poll whose handshake failed: the reason names the
    /// address.
    pub fn handshake_failure(hostname: &str, port: u16) -> (r: Status)
        ensures
            r@ == (StatusModel::Unavailable {
                reason: "Couldn't handshake with "@ + hostname@ + seq![':'] + decimal(port as nat),
            }),
    {
        Status::Unavailable { reason: failure_reason("Couldn't handshake with ", hostname, port) }
    }

    /// A second snapshot saying the same.
    pub fn copy(&self) -> (r: Status)
        ensures
            r@ == self@,
    {
        match self {
            Status::Available { online_count, current_players } => Status::Available {
                online_count: *online_count,
                current_players: current_players.copy(),
            },
            Status::Unavailable { reason } => Status::Unavailable { reason: reason.clone() },
        }
    }
}

/// `prefix`, then `hostname:port`.
fn failure_reason(prefix: &str, hostname: &str, port: u16) -> (r: String)
    ensures
        r@ == prefix@ + hostname@ + seq![':'] + decimal(port as nat),
{
    let mut reason = prefix.to_owned();
    reason.append(hostname);
    let colon: &str = ":";
    proof {
        reveal_strlit(":");
        assert(colon@ =~= seq![':']);
    }
    reason.append(colon);
    let digits = decimal_text(port as u32);
    reason.append(digits.as_str());
    reason
}

/// The transition between two consecutive snapshots; exactly one per poll.
pub enum StatusDifference {
    /// Some player joined or left.
    PlayerChange {
        online_count: u32,
        current_players: Players,
        joined_players: Players,
        left_players: Players,
    },
    /// The server answers again.
    Recover { online_count: u32, current_players: Players },
    /// The server stopped answering.
    Down { reason: String },
    /// Nothing to report.
    NoChange { latest_status: Status },
}

/// What a difference says, as mathematical values.
pub ghost enum DifferenceModel {
    PlayerChange {
        online_count: u32,
        current_players: Map<Seq<char>, Seq<char>>,
        joined_players: Map<Seq<char>, Seq<char>>,
        left_players: Map<Seq<char>, Seq<char>>,
    },
    Recover { online_count: u32, current_players: Map<Seq<char>, Seq<char>> },
    Down { reason: Seq<char> },
    NoChange { latest_status: StatusModel },
}

impl View for StatusDifference {
    type V = DifferenceModel;

    open spec fn view(&self) -> DifferenceModel {
        match self {
            StatusDifference::PlayerChange {
                online_count,
                current_players,
                joined_players,
                left_players,
            } => DifferenceModel::PlayerChange {
                online_count: *online_count,
                current_players: current_players@,
                joined_players: joined_players@,
                left_players: left_players@,
            },
            StatusDifference::Recover { online_count, current_players } => DifferenceModel::Recover {
                online_count: *online_count,
                current_players: current_players@,
            },
            StatusDifference::Down { reason } => DifferenceModel::Down { reason: reason@ },
            StatusDifference::NoChange { latest_status } => DifferenceModel::NoChange {
                latest_status: latest_status@,
            },
        }
    }
}

/// The difference from snapshot `latest` to snapshot `current`: a change of
/// availability is reported once, a steady state never; between two
/// available snapshots the players who joined or left are reported when
/// there are any.
pub open spec fn difference_between(latest: StatusModel, current: StatusModel) -> DifferenceModel {
    match (latest, current) {
        (StatusModel::Unavailable { .. }, StatusModel::Unavailable { .. }) => DifferenceModel::NoChange {
            latest_status: current,
        },
        (
            StatusModel::Unavailable { .. },
            StatusModel::Available { online_count, current_players },
        ) => DifferenceModel::Recover { online_count, current_players },
        (StatusModel::Available { .. }, StatusModel::Unavailable { reason }) => DifferenceModel::Down {
            reason,
        },
        (
            StatusModel::Available { current_players: latest_players, .. },
            StatusModel::Available { online_count, current_players },
        ) => {
            let joined_players = current_players.remove_keys(latest_players.dom());
            let left_players = latest_players.remove_keys(current_players.dom());
            if joined_players.dom() != Set::<Seq<char>>::empty() || left_players.dom() != Set::<
                Seq<char>,
            >::empty() {
                DifferenceModel::PlayerChange {
                    online_count,
                    current_players,
                    joined_players,
                    left_players,
                }
            } else {
                DifferenceModel::NoChange { latest_status: latest }
            }
        },
    }
}

impl StatusDifference {
    /// Classifies the transition from `latest_status` to `current_status`.
    pub fn from_between(latest_status: &Status, current_status: &Status) -> (r: Self)
        ensures
            r@ == difference_between(latest_status@, current_status@),
    {
        match (latest_status, current_status) {
            (Status::Unavailable { .. }, Status::Unavailable { .. }) => StatusDifference::NoChange {
                latest_status: current_status.copy(),
            },
            (Status::Unavailable { .. }, Status::Available { online_count, current_players }) => {
                StatusDifference::Recover {
                    online_count: *online_count,
                    current_players: current_players.copy(),
                }
            },
            (Status::Available { .. }, Status::Unavailable { reason }) => StatusDifference::Down {
                reason: reason.clone(),
            },
            (
                Status::Available { current_players: latest_players, .. },
                Status::Available { online_count, current_players },
            ) => {
                let joined_players = current_players.difference(latest_players);
                let left_players = latest_players.difference(current_players);
                if !joined_players.is_empty() || !left_players.is_empty() {
                    StatusDifference::PlayerChange {
                        online_count: *online_count,
                        current_players: current_players.copy(),
                        joined_players,
                        left_players,
                    }
                } else {
                    StatusDifference::NoChange { latest_status: latest_status.copy() }
                }
            },
        }
    }
}

/// Watches one server: remembers the previous snapshot and classifies each
/// new one against it.
pub struct StatusChecker {
    hostname: String,
    port: u16,
    latest_status: Status,
}

impl StatusChecker {
    /// A checker for `hostname:port` that starts from an unavailable
    /// snapshot.
    pub fn new(hostname: &str, port: u16) -> (r: Self)
        ensures
            r.spec_hostname() == hostname@,
            r.spec_port() == port,
            r.spec_latest_status()@ == (StatusModel::Unavailable { reason: "on start"@ }),
    {
        Self {
            hostname: hostname.to_owned(),
            port,
            latest_status: Status::Unavailable { reason: "on start".to_owned() },
        }
    }

    pub closed spec fn spec_hostname(&self) -> Seq<char> {
        self.hostname@
    }

    pub closed spec fn spec_port(&self) -> u16 {
        self.port
    }

    pub closed spec fn spec_latest_status(&self) -> &Status {
        &self.latest_status
    }

    pub fn hostname(&self) -> (r: &String)
        ensures
            r@ == self.spec_hostname(),
    {
        &self.hostname
    }

    pub fn port(&self) -> (r: u16)
        ensures
            r == self.spec_port(),
    {
        self.port
    }

    /// The snapshot of the previous poll.
    pub fn latest_status(&self) -> (r: &Status)
        ensures
            r == self.spec_latest_status(),
    {
        &self.latest_status
    }

    /// Classifies the snapshot `current_status` of a new poll against the
    /// previous one, then keeps it as the previous snapshot, whatever the
    /// difference is.
    pub fn get_status_difference(&mut self, current_status: Status) -> (r: StatusDifference)
        ensures
            r@ == difference_between(old(self).spec_latest_status()@, current_status@),
            *final(self).spec_latest_status() == current_status,
            final(self).spec_hostname() == old(self).spec_hostname(),
            final(self).spec_port() == old(self).spec_port(),
    {
        let difference = StatusDifference::from_between(&self.latest_status, &current_status);
        self.latest_status = current_status;
        difference
    }
}

} // verus!
