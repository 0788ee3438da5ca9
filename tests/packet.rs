use mcnotify::minecraft::client::{to_server_addr, Client, Error as ClientError, ServerAddr};
use mcnotify::minecraft::data_rw::{self, read_varint, write_string, write_varint};
use mcnotify::minecraft::packet::{
    Error as PacketError, GeneralPacket, HandShakePacket, ListRequestPacket, ListResponsePacket,
    NextState, PacketType,
};
use mcnotify::minecraft::packet_rw::{frame_size, read_general_packet, write_general_packet, Error};
use mcnotify::minecraft::state::{Error as StateError, State};

#[test]
fn handshake_to_general() {
    let from = HandShakePacket::new(335, "localhost", 25565, NextState::Status);
    let to = GeneralPacket::with_body_vec(
        PacketType::HandShake,
        vec![207, 2, 9, 108, 111, 99, 97, 108, 104, 111, 115, 116, 99, 221, 1],
    );

    let converted = from.to_general_packet().unwrap();

    assert_eq!(converted.packet_id, to.packet_id);
    assert_eq!(converted.body, to.body);
}

#[test]
fn list_response_from_general() {
    let mut body: Vec<u8> = vec![0x8c, 0x0b];
    body.extend_from_slice(
        r#"{"description":"A Minecraft Server","players":{"max":20,"online":0},"version":{"name":"1.7.10","protocol":5},"modinfo":{"type":"FML","modList":[{"modid":"mcp","version":"9.05"},{"modid":"FML","version":"7.10.99.99"},{"modid":"Forge","version":"10.13.4.1614"},{"modid":"clayiumtransformer","version":"0.4.1"},{"modid":"CodeChickenCore","version":"1.0.7.47"},{"modid":"NotEnoughItems","version":"1.0.5.120"},{"modid":"\u003cCoFH ASM\u003e","version":"000"},{"modid":"net.minecraft.scalar.cutall.mod_CutAllSMP","version":"2.5.0"},{"modid":"CoFHCore","version":"1.7.10R3.1.4"},{"modid":"BuildCraft|Core","version":"7.1.22"},{"modid":"BuildCraft|Transport","version":"7.1.22"},{"modid":"BuildCraft|Factory","version":"7.1.22"},{"modid":"BuildCraft|Silicon","version":"7.1.22"},{"modid":"BuildCraft|Robotics","version":"7.1.22"},{"modid":"BuildCraft|Energy","version":"7.1.22"},{"modid":"BuildCraft|Builders","version":"7.1.22"},{"modid":"ChickenChunks","version":"1.3.4.16"},{"modid":"IC2","version":"2.2.828-experimental"},{"modid":"ThermalFoundation","version":"1.7.10R1.2.6"},{"modid":"ThermalExpansion","version":"1.7.10R4.1.5"},{"modid":"clayium","version":"0.4.6.36.hotfix2"},{"modid":"exnihilo","version":"1.38-53"},{"modid":"exastris","version":"MC1.7.10-1.16-36"},{"modid":"inventorytweaks","version":"1.59-dev-152-cf6e263"},{"modid":"JABBA","version":"1.2.2"},{"modid":"ThermalDynamics","version":"1.7.10R1.2.1"}]}}"#.as_bytes(),
    );
    let from = GeneralPacket::with_body_vec(PacketType::List, body);

    let json = ListResponsePacket::status_json(&from).unwrap();
    let value: serde_json::Value = serde_json::from_str(&json).unwrap();

    assert_eq!(value["version"]["name"].as_str(), Some("1.7.10"));
}

#[test]
fn handshake_frame_round_trip() {
    let packet = HandShakePacket::new(335, "localhost", 25565, NextState::Status);
    let general = packet.to_general_packet().unwrap();
    let mut wire = Vec::new();
    write_general_packet(&mut wire, &general).unwrap();

    let prefix = read_varint(&wire, 0).unwrap();
    let mut id = Vec::new();
    write_varint(&mut id, 0);
    assert_eq!(prefix.content as usize, id.len() + general.body.len());
    assert_eq!(wire.len(), prefix.read_len + id.len() + general.body.len());

    let read = read_general_packet(&wire, State::HandShaking).unwrap();
    assert_eq!(read.read_len, wire.len());
    assert_eq!(read.content.packet_id, PacketType::HandShake);
    let decoded = HandShakePacket::from_general_packet(&read.content).unwrap();
    assert_eq!(decoded.protocol_version(), 335);
    assert_eq!(decoded.server_address(), "localhost");
    assert_eq!(decoded.server_port(), 25565);
    assert_eq!(decoded.next_state(), 1);
    assert_eq!(decoded, packet);
}

#[test]
fn packet_identifier_depends_on_state() {
    assert_eq!(State::HandShaking.detect_packet_type(0), Ok(PacketType::HandShake));
    assert_eq!(State::HandShakeDone.detect_packet_type(0), Ok(PacketType::List));
    assert_eq!(State::HandShaking.detect_packet_type(1), Ok(PacketType::PingPong));
    assert_eq!(State::HandShakeDone.detect_packet_type(1), Ok(PacketType::PingPong));
    for id in [2, -1, 127, i32::MAX, i32::MIN] {
        assert_eq!(State::HandShaking.detect_packet_type(id), Err(StateError::InvalidPacketId));
        assert_eq!(State::HandShakeDone.detect_packet_type(id), Err(StateError::InvalidPacketId));
    }
}

#[test]
fn packet_type_and_next_state_codes() {
    assert_eq!(i32::from(PacketType::HandShake), 0);
    assert_eq!(i32::from(PacketType::List), 0);
    assert_eq!(i32::from(PacketType::PingPong), 1);
    let status: i32 = NextState::Status.into();
    let login: i32 = NextState::Login.into();
    assert_eq!((status, login), (1, 2));
}

#[test]
fn list_request_has_empty_body() {
    let general = ListRequestPacket::new().to_general_packet();
    assert_eq!(general.packet_id, PacketType::List);
    let mut wire = Vec::new();
    write_general_packet(&mut wire, &general).unwrap();
    assert_eq!(wire, vec![1, 0]);
}

#[test]
fn frame_read_errors() {
    let negative = [0xff_u8, 0xff, 0xff, 0xff, 0x0f, 0x00];
    assert_eq!(read_general_packet(&negative, State::HandShaking).err(), Some(Error::PacketHasNegativeLength));
    let shorter_than_id = [0x00_u8, 0x00];
    assert_eq!(
        read_general_packet(&shorter_than_id, State::HandShaking).err(),
        Some(Error::PacketHasNegativeLength)
    );
    let truncated = [0x05_u8, 0x00, 0x01];
    assert_eq!(read_general_packet(&truncated, State::HandShaking).err(), Some(Error::UnexpectedEof));
    let unknown_id = [0x02_u8, 0x07, 0x00];
    assert_eq!(
        read_general_packet(&unknown_id, State::HandShakeDone).err(),
        Some(Error::StateError(StateError::InvalidPacketId))
    );
    let no_prefix: [u8; 0] = [];
    assert_eq!(
        read_general_packet(&no_prefix, State::HandShaking).err(),
        Some(Error::DataRWError(data_rw::Error::VarIntIsTooShort))
    );
}

#[test]
fn frame_size_counts_prefix_and_payload() {
    assert_eq!(frame_size(&[0x03, 0x00]), Ok(4));
    assert_eq!(frame_size(&[0x80, 0x01]), Ok(130));
    assert_eq!(frame_size(&[0x80]), Err(Error::DataRWError(data_rw::Error::VarIntIsTooShort)));
    assert_eq!(frame_size(&[0xff, 0xff, 0xff, 0xff, 0x0f]), Err(Error::PacketHasNegativeLength));
}

#[test]
fn client_handshakes_once() {
    let addr = ServerAddr::new("localhost", 25565);
    let mut client = Client::new(&addr);
    assert_eq!(client.state(), State::HandShaking);
    let bytes = client.handshake(NextState::Status).unwrap();
    assert_eq!(bytes, vec![16, 0, 207, 2, 9, 108, 111, 99, 97, 108, 104, 111, 115, 116, 99, 221, 1]);
    assert_eq!(client.state(), State::HandShaking);
    client.handshake_sent();
    assert_eq!(client.state(), State::HandShakeDone);
    assert_eq!(
        client.handshake(NextState::Status),
        Err(ClientError::StateError(StateError::AlreadyDone(State::HandShaking)))
    );
}

#[test]
fn unsent_handshake_leaves_client_handshaking() {
    let client = Client::new(&ServerAddr::new("localhost", 25565));
    let _frame = client.handshake(NextState::Login).unwrap();
    assert_eq!(client.state(), State::HandShaking);
    let bytes = client.list().unwrap();
    assert_eq!(&bytes[..2], &[16, 0]);
    assert_eq!(&bytes[bytes.len() - 2..], &[1, 0]);
}

#[test]
fn client_list_handshakes_first() {
    let addr = ServerAddr::from_hostname("localhost");
    assert_eq!(addr.port(), 25565);
    let mut client = Client::new(&addr);
    let bytes = client.list().unwrap();
    assert_eq!(
        bytes,
        vec![16, 0, 207, 2, 9, 108, 111, 99, 97, 108, 104, 111, 115, 116, 99, 221, 1, 1, 0]
    );
    assert_eq!(client.state(), State::HandShaking);
    client.list_sent();
    assert_eq!(client.state(), State::HandShakeDone);
    assert_eq!(client.list().unwrap(), vec![1, 0]);
}

#[test]
fn client_reads_status_response() {
    let mut client = Client::new(&ServerAddr::new("example.org", 25566));
    client.list().unwrap();
    client.list_sent();
    let mut body = Vec::new();
    write_string(&mut body, "{\"ok\":true}").unwrap();
    let mut wire = Vec::new();
    write_general_packet(&mut wire, &GeneralPacket::with_body_vec(PacketType::List, body)).unwrap();
    assert_eq!(client.read_list_response(&wire).unwrap(), "{\"ok\":true}");

    let fresh = Client::new(&ServerAddr::new("example.org", 25566));
    let ping = [0x01_u8, 0x01];
    assert_eq!(
        fresh.read_list_response(&[0x01, 0x05]).err(),
        Some(ClientError::PacketRWError(Error::StateError(StateError::InvalidPacketId)))
    );
    assert_eq!(
        fresh.read_list_response(&ping).err(),
        Some(ClientError::PacketError(PacketError::DataRWError(data_rw::Error::VarIntIsTooShort)))
    );
}

#[test]
fn client_refuses_overlong_hostname() {
    let host = "h".repeat(data_rw::STRING_MAX + 1);
    let client = Client::new(&ServerAddr::new(&host, 1));
    assert_eq!(
        client.list(),
        Err(ClientError::PacketError(PacketError::DataRWError(data_rw::Error::StringIsTooLong)))
    );
    assert_eq!(client.state(), State::HandShaking);
}

#[test]
fn address_text_is_split_at_last_colon() {
    let a = to_server_addr("mc.example.org:25570").unwrap();
    assert_eq!((a.hostname().as_str(), a.port()), ("mc.example.org", 25570));
    let b = to_server_addr("mc.example.org").unwrap();
    assert_eq!((b.hostname().as_str(), b.port()), ("mc.example.org", 25565));
    let c = to_server_addr("::1:+80").unwrap();
    assert_eq!((c.hostname().as_str(), c.port()), ("::1", 80));
    let d = to_server_addr(":65535").unwrap();
    assert_eq!((d.hostname().as_str(), d.port()), ("", 65535));
    for bad in ["host:", "host:65536", "host:12a", "host:+", "host:-1", "host:99999999999"] {
        assert_eq!(
            to_server_addr(bad).err(),
            Some(ClientError::AddressConvertError("invalid port number, parse failed".to_owned())),
            "{}",
            bad
        );
    }
}
