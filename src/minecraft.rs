//! The server's status protocol: primitive codec, packets, framing and the
//! connection state that decides how a packet identifier is read.

pub mod client;
pub mod data_rw;
pub mod json_data;
pub mod packet;
pub mod packet_rw;
pub mod state;
