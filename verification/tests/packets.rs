use mcproto::de::from_bytes;
use mcproto::error::Error;
use mcproto::packet::{
    BlockChangeRecord, Data, Direction, Handshake, LoginToClient, LoginToServer, ModifierData,
    NextState, ObjectData, Players, Property, Response, Sample, Stat, StatusToClient, StatusToServer,
    Version,
};
use mcproto::play::{triple, PlayToClient, PlayToServer};
use mcproto::ser::to_bytes;
use mcproto::shape::{Prefix, Shape};
use mcproto::types::array::ShortPrefix;
use mcproto::types::uuid::{Uuid, Uuidi128};
use mcproto::types::var::VarInt;
use mcproto::value::{bytes_value, value_bytes, Value};

#[test]
fn handshake_travels_as_index_and_fields() {
    let message = Handshake::Handshake {
        proto_version: VarInt(5),
        server_address: "localhost".to_string(),
        server_port: 25565,
        next_state: NextState::Status,
    };
    let bytes = to_bytes(&message.to_value(), &Handshake::shape()).unwrap();
    let mut expected = vec![0, 5, 9];
    expected.extend_from_slice(b"localhost");
    expected.extend_from_slice(&[0x63, 0xdd, 1]);
    assert_eq!(bytes, expected);
    let back = from_bytes(&bytes, &Handshake::shape()).unwrap();
    assert_eq!(Handshake::from_value(back), Some(message));
}

#[test]
fn handshake_with_an_unknown_next_state_is_unsupported() {
    let mut bytes = vec![0, 5, 1, b'h', 0, 80, 3];
    assert_eq!(from_bytes(&bytes, &Handshake::shape()), Err(Error::UnsupportedShape));
    bytes[6] = 2;
    let v = from_bytes(&bytes, &Handshake::shape()).unwrap();
    assert_eq!(
        Handshake::from_value(v),
        Some(Handshake::Handshake {
            proto_version: VarInt(5),
            server_address: "h".to_string(),
            server_port: 80,
            next_state: NextState::Login,
        })
    );
    bytes[0] = 1;
    assert_eq!(from_bytes(&bytes, &Handshake::shape()), Err(Error::UnsupportedShape));
}

#[test]
fn unit_alternatives_are_their_index() {
    for (state, index) in [(NextState::Nothing, 0u8), (NextState::Status, 1), (NextState::Login, 2)] {
        let bytes = to_bytes(&state.to_value(), &NextState::shape()).unwrap();
        assert_eq!(bytes, vec![index]);
        assert_eq!(NextState::from_value(from_bytes(&bytes, &NextState::shape()).unwrap()), Some(state));
    }
    for (direction, index) in [(Direction::Clientbound, 0u8), (Direction::Serverbound, 1)] {
        let bytes = to_bytes(&direction.to_value(), &Direction::shape()).unwrap();
        assert_eq!(bytes, vec![index]);
        assert_eq!(Direction::from_value(from_bytes(&bytes, &Direction::shape()).unwrap()), Some(direction));
    }
    assert_eq!(from_bytes(&[2], &Direction::shape()), Err(Error::UnsupportedShape));
}

#[test]
fn status_messages_round_trip() {
    let pong = StatusToClient::Pong { time: 0x0102030405060708 };
    let bytes = to_bytes(&pong.to_value(), &StatusToClient::shape()).unwrap();
    assert_eq!(bytes, vec![1, 1, 2, 3, 4, 5, 6, 7, 8]);
    assert_eq!(StatusToClient::from_value(from_bytes(&bytes, &StatusToClient::shape()).unwrap()), Some(pong));
    let response = StatusToClient::StatusResponse { response: "{}".to_string() };
    let bytes = to_bytes(&response.to_value(), &StatusToClient::shape()).unwrap();
    assert_eq!(bytes, vec![0, 2, b'{', b'}']);
    assert_eq!(
        StatusToClient::from_value(from_bytes(&bytes, &StatusToClient::shape()).unwrap()),
        Some(response)
    );
    let request = StatusToServer::StatusRequest;
    let bytes = to_bytes(&request.to_value(), &StatusToServer::shape()).unwrap();
    assert_eq!(bytes, vec![0]);
    assert_eq!(
        StatusToServer::from_value(from_bytes(&bytes, &StatusToServer::shape()).unwrap()),
        Some(StatusToServer::StatusRequest)
    );
    let ping = StatusToServer::Ping { time: -1 };
    let bytes = to_bytes(&ping.to_value(), &StatusToServer::shape()).unwrap();
    assert_eq!(bytes, vec![1, 0xff, 0xff, 0xff, 0xff, 0xff, 0xff, 0xff, 0xff]);
    assert_eq!(StatusToServer::from_value(from_bytes(&bytes, &StatusToServer::shape()).unwrap()), Some(ping));
}

#[test]
fn login_messages_round_trip() {
    let request = LoginToClient::EncryptionRequest {
        server_id: "".to_string(),
        pubkey: ShortPrefix::new(vec![1, 2, 3]),
        verify_token: ShortPrefix::new(vec![9, 8, 7, 6]),
    };
    let bytes = to_bytes(&request.to_value(), &LoginToClient::shape()).unwrap();
    assert_eq!(bytes, vec![1, 0, 0, 3, 1, 2, 3, 0, 4, 9, 8, 7, 6]);
    assert_eq!(LoginToClient::from_value(from_bytes(&bytes, &LoginToClient::shape()).unwrap()), Some(request));

    let id = Uuid([0x11; 16]);
    let success = LoginToClient::LoginSuccess { uuid: id, username: "Notch".to_string() };
    let bytes = to_bytes(&success.to_value(), &LoginToClient::shape()).unwrap();
    assert_eq!(bytes[0], 2);
    assert_eq!(bytes[1], 36);
    assert_eq!(&bytes[2..38], b"11111111-1111-1111-1111-111111111111");
    assert_eq!(&bytes[38..], &[5, b'N', b'o', b't', b'c', b'h']);
    assert_eq!(LoginToClient::from_value(from_bytes(&bytes, &LoginToClient::shape()).unwrap()), Some(success));

    let disconnect = LoginToClient::Disconnect { reason: "bye".to_string() };
    let bytes = to_bytes(&disconnect.to_value(), &LoginToClient::shape()).unwrap();
    assert_eq!(bytes, vec![0, 3, b'b', b'y', b'e']);

    let start = LoginToServer::LoginStart { name: "Steve".to_string() };
    let bytes = to_bytes(&start.to_value(), &LoginToServer::shape()).unwrap();
    assert_eq!(bytes, vec![0, 5, b'S', b't', b'e', b'v', b'e']);
    assert_eq!(LoginToServer::from_value(from_bytes(&bytes, &LoginToServer::shape()).unwrap()), Some(start));
    let response = LoginToServer::EncryptionResponse {
        shared_secret: ShortPrefix::new(vec![]),
        verify_token: ShortPrefix::new(vec![0xff]),
    };
    let bytes = to_bytes(&response.to_value(), &LoginToServer::shape()).unwrap();
    assert_eq!(bytes, vec![1, 0, 0, 0, 1, 0xff]);
    assert_eq!(LoginToServer::from_value(from_bytes(&bytes, &LoginToServer::shape()).unwrap()), Some(response));
}

#[test]
fn plain_records_round_trip() {
    let record = BlockChangeRecord { xz: 0x12, y: 64, block_id: VarInt(300) };
    let bytes = to_bytes(&record.to_value(), &BlockChangeRecord::shape()).unwrap();
    assert_eq!(bytes, vec![0x12, 64, 0xac, 0x02]);
    assert_eq!(BlockChangeRecord::from_value(from_bytes(&bytes, &BlockChangeRecord::shape()).unwrap()), Some(record));

    let stat = Stat { name: "jump".to_string(), value: VarInt(3) };
    let bytes = to_bytes(&stat.to_value(), &Stat::shape()).unwrap();
    assert_eq!(bytes, vec![4, b'j', b'u', b'm', b'p', 3]);
    assert_eq!(Stat::from_value(from_bytes(&bytes, &Stat::shape()).unwrap()), Some(stat));

    let sample = Sample { name: "a".to_string(), id: "b".to_string() };
    let bytes = to_bytes(&sample.to_value(), &Sample::shape()).unwrap();
    assert_eq!(bytes, vec![1, b'a', 1, b'b']);
    assert_eq!(Sample::from_value(from_bytes(&bytes, &Sample::shape()).unwrap()), Some(sample));

    let version = Version { name: "1.7.10".to_string(), protocol: 5 };
    let bytes = to_bytes(&version.to_value(), &Version::shape()).unwrap();
    assert_eq!(bytes, vec![6, b'1', b'.', b'7', b'.', b'1', b'0', 0, 0, 0, 5]);
    assert_eq!(Version::from_value(from_bytes(&bytes, &Version::shape()).unwrap()), Some(version));

    let data = Data { name: "n".to_string(), value: "v".to_string(), signature: "s".to_string() };
    let bytes = to_bytes(&data.to_value(), &Data::shape()).unwrap();
    assert_eq!(bytes, vec![1, b'n', 1, b'v', 1, b's']);
    assert_eq!(Data::from_value(from_bytes(&bytes, &Data::shape()).unwrap()), Some(data));

    let object = ObjectData { object_id: 1, velocity_x: -1, velocity_y: 2, velocity_z: 3 };
    let bytes = to_bytes(&object.to_value(), &ObjectData::shape()).unwrap();
    assert_eq!(bytes, vec![0, 0, 0, 1, 0xff, 0xff, 0, 2, 0, 3]);
    assert_eq!(ObjectData::from_value(from_bytes(&bytes, &ObjectData::shape()).unwrap()), Some(object));

    let modifier = ModifierData { uuid: Uuidi128(7), amount: 0.5f64.to_bits(), operation: 2 };
    let bytes = to_bytes(&modifier.to_value(), &ModifierData::shape()).unwrap();
    assert_eq!(bytes.len(), 16 + 8 + 1);
    assert_eq!(bytes[15], 7);
    assert_eq!(&bytes[16..24], &[0x3f, 0xe0, 0, 0, 0, 0, 0, 0]);
    assert_eq!(ModifierData::from_value(from_bytes(&bytes, &ModifierData::shape()).unwrap()), Some(modifier));
}

#[test]
fn a_value_of_another_record_does_not_convert() {
    let stat = Stat { name: "x".to_string(), value: VarInt(0) }.to_value();
    assert_eq!(Sample::from_value(stat), None);
    assert_eq!(Stat::from_value(Value::Record(vec![Value::Str("x".to_string())])), None);
    assert_eq!(Stat::from_value(Value::Str("x".to_string())), None);
    assert_eq!(
        Stat::from_value(Value::Record(vec![Value::VarInt(1), Value::Str("x".to_string())])),
        None
    );
    assert_eq!(NextState::from_value(Value::Union(3, Box::new(Value::Record(vec![])))), None);
    assert_eq!(NextState::from_value(Value::Union(1, Box::new(Value::U8(0)))), None);
    assert_eq!(NextState::from_value(Value::Union(1, Box::new(Value::Record(vec![Value::U8(0)])))), None);
    assert_eq!(
        Handshake::from_value(Value::Union(
            0,
            Box::new(Value::Record(vec![
                Value::VarInt(5),
                Value::Str("h".to_string()),
                Value::U16(1),
                Value::Union(9, Box::new(Value::Record(vec![]))),
            ]))
        )),
        None
    );
    assert_eq!(StatusToClient::from_value(Value::Bool(true)), None);
}

#[test]
fn byte_runs_convert_to_and_from_values() {
    let v = bytes_value(&vec![1, 2, 255]);
    assert_eq!(v, Value::Array(vec![Value::U8(1), Value::U8(2), Value::U8(255)]));
    assert_eq!(value_bytes(v), Some(vec![1, 2, 255]));
    assert_eq!(value_bytes(bytes_value(&vec![])), Some(vec![]));
    assert_eq!(value_bytes(Value::Array(vec![Value::U8(1), Value::I8(2)])), None);
    assert_eq!(value_bytes(Value::U8(1)), None);
}

#[test]
fn status_description_has_no_wire_form() {
    assert_eq!(from_bytes(&[0; 64], &Players::shape()), Err(Error::UnsupportedShape));
    assert_eq!(from_bytes(&[0; 64], &Response::shape()), Err(Error::UnsupportedShape));
    let players = Players { max: 20, online: 1, sample: Some(vec![Sample { name: "a".to_string(), id: "b".to_string() }]) };
    let response = Response {
        description: "hi".to_string(),
        favicon: None,
        players: players.clone(),
        version: Version { name: "x".to_string(), protocol: 5 },
    };
    assert_eq!(response.players, players);
    assert!(!Shape::Sequence.is_supported());
}

#[test]
fn property_shape_is_key_value_and_modifiers() {
    match Property::shape() {
        Shape::Record(fields) => {
            assert_eq!(fields.len(), 3);
            assert_eq!(fields[0], Shape::Str);
            assert_eq!(fields[1], Shape::F64);
            assert_eq!(fields[2], Shape::Array(Prefix::Short, Box::new(ModifierData::shape())));
        },
        other => panic!("not a record: {:?}", other),
    }
    let property = Property { key: "k".to_string(), value: 1.0f64.to_bits(), modifiers: ShortPrefix::new(vec![]) };
    assert_eq!(property.modifiers.elements().len(), 0);
    let bytes = to_bytes(
        &Value::Record(vec![Value::Str("k".to_string()), Value::F64(1.0f64.to_bits()), Value::Array(vec![])]),
        &Property::shape(),
    )
    .unwrap();
    assert_eq!(bytes, vec![1, b'k', 0x3f, 0xf0, 0, 0, 0, 0, 0, 0, 0, 0]);
}

#[test]
fn play_unions_hold_every_message() {
    match PlayToClient::shape() {
        Shape::Union(alternatives) => {
            assert_eq!(alternatives.len(), 65);
            assert_eq!(alternatives[0], PlayToClient::keep_alive());
            assert_eq!(alternatives[0], Shape::Record(vec![Shape::I32]));
            assert_eq!(alternatives[12], PlayToClient::spawn_player());
        },
        other => panic!("not a union: {:?}", other),
    }
    match PlayToServer::shape() {
        Shape::Union(alternatives) => assert_eq!(alternatives.len(), 24),
        other => panic!("not a union: {:?}", other),
    }
    assert_eq!(triple(Shape::I8, Shape::I8, Shape::I8), Shape::Record(vec![Shape::I8, Shape::I8, Shape::I8]));
}

#[test]
fn play_messages_are_read_by_their_shapes() {
    let shape = PlayToClient::shape();
    assert_eq!(
        from_bytes(&[0, 0, 0, 0, 5], &shape),
        Ok(Value::Union(0, Box::new(Value::Record(vec![Value::I32(5)]))))
    );
    let time = to_bytes(
        &Value::Union(3, Box::new(Value::Record(vec![Value::I64(1), Value::I64(2)]))),
        &shape,
    )
    .unwrap();
    assert_eq!(time, vec![3, 0, 0, 0, 0, 0, 0, 0, 1, 0, 0, 0, 0, 0, 0, 0, 2]);
    let keep_alive = to_bytes(&Value::Union(0, Box::new(Value::Record(vec![Value::I32(-1)]))), &PlayToServer::shape()).unwrap();
    assert_eq!(keep_alive, vec![0, 0xff, 0xff, 0xff, 0xff]);
    assert_eq!(from_bytes(&[0x7f, 0], &shape), Err(Error::UnsupportedShape));
}
