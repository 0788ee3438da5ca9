//! The status document a server answers with, as plain values. Decoding the
//! JSON text into these values happens outside the library.

use vstd::prelude::*;

verus! {

/// A chat component; only its text is kept.
#[derive(Debug, Clone)]
pub struct Chat {
    pub text: String,
}

impl std::str::FromStr for Chat {
    type Err = ();

    fn from_str(text: &str) -> Result<Self, ()> {
        Ok(Chat { text: text.to_owned() })
    }
}

/// The decoded status document.
#[derive(Debug, Clone)]
pub struct Status {
    pub version: Version,
    pub description: Chat,
    pub players: Players,
}

#[derive(Debug, Clone)]
pub struct Version {
    pub name: String,
    pub protocol: u32,
}

/// One entry of the player sample.
#[derive(Debug, Clone)]
pub struct Player {
    pub name: String,
    pub id: String,
}

/// Player counts and the optional sample of who is online.
#[derive(Debug, Clone)]
pub struct Players {
    pub max: u32,
    pub online: u32,
    pub sample: Option<Vec<Player>>,
}

} // verus!
