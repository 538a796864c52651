use netgame::game::graphics::{all_mesh_types, Color, MeshType};
use netgame::game::keyboard::{all_keys, key_at, key_index, KeyCode, KEY_COUNT};
use netgame::net::connection::Connection;
use netgame::net::event::Event;
use netgame::net::protocol::{
    i32_from_bytes, i32_to_bytes, scalar_from_bytes, scalar_to_bytes, u32_to_bytes, u64_to_bytes,
    unsigned_from_bytes, usize_to_bytes, Protocol, SmartProtocol,
};

fn test_protocol_encode_decode<PROTOCOL: Protocol>(expected: Event) {
    let actual_bytes = PROTOCOL::encode(&expected);
    let actual_option = PROTOCOL::decode(actual_bytes.as_slice());
    assert!(actual_option.is_some());
    assert_eq!(expected, actual_option.unwrap());
}

fn movement(handle: u64, x: f32, y: f32, angle: f32) -> Event {
    Event::Movement(handle, x.to_bits(), y.to_bits(), angle.to_bits())
}

fn quantized(red: f32, green: f32, blue: f32, alpha: f32) -> Color {
    Color::new(
        (red * 255.0) as u8,
        (green * 255.0) as u8,
        (blue * 255.0) as u8,
        (alpha * 255.0) as u8,
    )
}

fn receive_blocking(conn: &mut Connection<SmartProtocol>) -> Option<Event> {
    let mut attempts = 0;
    loop {
        let option = conn.recv();
        if option.is_some() || attempts > 3 {
            return option;
        }
        attempts += 1;
    }
}

#[test]
fn smart_protocol_encode_decode_movement() {
    let expected = movement(0xff, 1432.0, -1432.0, -13452.0);
    test_protocol_encode_decode::<SmartProtocol>(expected);
}

#[test]
fn smart_protocol_encode_decode_ready() {
    let expected = Event::Ready;
    test_protocol_encode_decode::<SmartProtocol>(expected);
}

#[test]
fn smart_protocol_encode_decode_standby() {
    let expected = Event::Standby;
    test_protocol_encode_decode::<SmartProtocol>(expected);
}

#[test]
fn smart_protocol_encode_decode_start() {
    let expected = Event::Start;
    test_protocol_encode_decode::<SmartProtocol>(expected);
}

#[test]
fn smart_protocol_encode_decode_yield() {
    let expected = Event::Yield(u64::max_value());
    test_protocol_encode_decode::<SmartProtocol>(expected);
}

#[test]
fn smart_protocol_encode_decode_request_movement() {
    let expected = Event::RequestMovement(
        0xff,
        1432.0f32.to_bits(),
        (-1432.0f32).to_bits(),
        (-13452.0f32).to_bits(),
    );
    test_protocol_encode_decode::<SmartProtocol>(expected);
}

#[test]
fn smart_protocol_encode_decode_custom() {
    let expected = Event::Custom(2131231, vec![234, 3, b'\n', 34, b'\x1b', 32, b'\n']);
    test_protocol_encode_decode::<SmartProtocol>(expected);
}

#[test]
fn smart_protocol_encode_decode_spawn() {
    let expected = Event::Spawn(u64::max_value(), MeshType::Tank);
    test_protocol_encode_decode::<SmartProtocol>(expected);
}

#[test]
fn smart_protocol_encode_decode_despawn() {
    let expected = Event::Despawn(u64::max_value());
    test_protocol_encode_decode::<SmartProtocol>(expected);
}

#[test]
fn smart_protocol_encode_decode_key_down() {
    let expected = Event::KeyDown(KeyCode::Apostrophe);
    test_protocol_encode_decode::<SmartProtocol>(expected);
}

#[test]
fn smart_protocol_encode_decode_key_up() {
    let expected = Event::KeyUp(KeyCode::Calculator);
    test_protocol_encode_decode::<SmartProtocol>(expected);
}

#[test]
fn smart_protocol_encode_decode_health() {
    let expected = Event::Health(3452, 255);
    test_protocol_encode_decode::<SmartProtocol>(expected);
}

#[test]
fn smart_protocol_encode_decode_color() {
    let expected = Event::Color(3452, quantized(1.0, 1.0, 1.0, 0.4));
    test_protocol_encode_decode::<SmartProtocol>(expected);
}

#[test]
fn smart_protocol_encode_decode_dimension() {
    let expected = Event::Dimension(32342, 3234.0f32.to_bits(), 221.0f32.to_bits());
    test_protocol_encode_decode::<SmartProtocol>(expected);
}

#[test]
fn smart_protocol_encode_decode_pick_up() {
    let expected = Event::PickUp(32342, MeshType::Heal);
    test_protocol_encode_decode::<SmartProtocol>(expected);
}

#[test]
fn smart_protocol_encode_decode_game_over() {
    let expected = Event::GameOver;
    test_protocol_encode_decode::<SmartProtocol>(expected);
}

#[test]
fn smart_protocol_encode_decode_map() {
    let expected = Event::MapChoice(usize::max_value());
    test_protocol_encode_decode::<SmartProtocol>(expected);
}

#[test]
fn smart_protocol_encode_decode_key_down_all_keys() {
    for key in &all_keys() {
        let expected = Event::KeyDown(*key);
        test_protocol_encode_decode::<SmartProtocol>(expected);
    }
}

#[test]
fn smart_protocol_encode_decode_key_up_all_keys() {
    for key in &all_keys() {
        let expected = Event::KeyUp(*key);
        test_protocol_encode_decode::<SmartProtocol>(expected);
    }
}

#[test]
fn smart_protocol_single_event_transfer() {
    let mut server = Connection::<SmartProtocol>::new(true);
    let mut client = Connection::<SmartProtocol>::new(true);
    server.send(&movement(0, 32.0, 64.0, -128.0));
    client.feed(server.take_outgoing().as_slice());
    let success = match receive_blocking(&mut client) {
        Some(Event::Movement(0, x, y, angle)) => {
            f32::from_bits(x) == 32.0 && f32::from_bits(y) == 64.0 && f32::from_bits(angle) == -128.0
        }
        _ => false,
    };
    assert!(success);
}

#[test]
fn smart_protocol_multiple_event_transfer() {
    let mut server = Connection::<SmartProtocol>::new(true);
    let mut client = Connection::<SmartProtocol>::new(true);
    server.send(&movement(0, 32.0, 64.0, -128.0));
    server.send(&movement(0, 33.0, 65.0, 128.0));
    client.feed(server.take_outgoing().as_slice());
    let first = match receive_blocking(&mut client) {
        Some(Event::Movement(0, x, y, angle)) => {
            f32::from_bits(x) == 32.0 && f32::from_bits(y) == 64.0 && f32::from_bits(angle) == -128.0
        }
        _ => false,
    };
    let second = match receive_blocking(&mut client) {
        Some(Event::Movement(0, x, y, angle)) => {
            f32::from_bits(x) == 33.0 && f32::from_bits(y) == 65.0 && f32::from_bits(angle) == 128.0
        }
        _ => false,
    };
    let success = first && second;
    assert!(success);
}

#[test]
fn movement_travels_over_a_live_connection_bit_for_bit() {
    let mut sender = Connection::<SmartProtocol>::new(false);
    let mut receiver = Connection::<SmartProtocol>::new(false);
    let sent = movement(7, 1432.0, -1432.0, -13452.0);
    sender.send(&sent);
    let wire = sender.take_outgoing();
    receiver.feed(wire.as_slice());
    match receiver.recv() {
        Some(Event::Movement(handle, x, y, angle)) => {
            assert_eq!(handle, 7);
            assert_eq!(x, 1432.0f32.to_bits());
            assert_eq!(y, (-1432.0f32).to_bits());
            assert_eq!(angle, (-13452.0f32).to_bits());
            assert_eq!(x, 0x44B3_0000);
            assert_eq!(y, 0xC4B3_0000);
        }
        other => panic!("received {:?}", other),
    }
    assert_eq!(receiver.recv(), None);
}

#[test]
fn movement_has_the_documented_layout() {
    let bytes = SmartProtocol::encode(&movement(0x0102_0304_0506_0708, 1.0, -2.0, 0.5));
    assert_eq!(
        bytes,
        vec![
            b'M', 1, 2, 3, 4, 5, 6, 7, 8, 0x3F, 0x80, 0, 0, 0xC0, 0, 0, 0, 0x3F, 0, 0, 0
        ]
    );
}

#[test]
fn every_tag_is_one_byte_and_distinct() {
    let events = vec![
        Event::Ready,
        Event::Standby,
        Event::Start,
        movement(1, 0.0, 0.0, 0.0),
        Event::RequestMovement(1, 0, 0, 0),
        Event::Custom(1, vec![]),
        Event::Yield(1),
        Event::Spawn(1, MeshType::Tank),
        Event::PickUp(1, MeshType::Tank),
        Event::Despawn(1),
        Event::KeyDown(KeyCode::A),
        Event::KeyUp(KeyCode::A),
        Event::Health(1, 1),
        Event::Color(1, Color::new(1, 2, 3, 4)),
        Event::Dimension(1, 0, 0),
        Event::GameOver,
        Event::MapChoice(1),
    ];
    let mut tags: Vec<u8> = events.iter().map(|e| SmartProtocol::encode(e)[0]).collect();
    tags.sort();
    tags.dedup();
    assert_eq!(tags.len(), 17);
    assert_eq!(SmartProtocol::encode(&Event::Ready), vec![b'r']);
    assert_eq!(SmartProtocol::encode(&Event::Start), vec![b'S']);
    assert_eq!(SmartProtocol::encode(&Event::Health(2, 9)), vec![b'H', 0, 0, 0, 0, 0, 0, 0, 2, 9]);
    assert_eq!(
        SmartProtocol::encode(&Event::Color(2, Color::new(9, 8, 7, 6))),
        vec![b'C', 0, 0, 0, 0, 0, 0, 0, 2, 9, 8, 7, 6]
    );
}

#[test]
fn round_trip_at_the_extremes() {
    for handle in [0u64, 1, 0x1b, 0x0a, u64::MAX] {
        for value in [
            0.0f32,
            -0.0,
            1.0,
            -1.0,
            f32::MAX,
            f32::MIN,
            f32::MIN_POSITIVE,
            f32::INFINITY,
            f32::NEG_INFINITY,
            f32::NAN,
            1.0e-40,
        ] {
            test_protocol_encode_decode::<SmartProtocol>(Event::Movement(
                handle,
                value.to_bits(),
                (-value).to_bits(),
                value.to_bits(),
            ));
            test_protocol_encode_decode::<SmartProtocol>(Event::Dimension(
                handle,
                value.to_bits(),
                (-value).to_bits(),
            ));
        }
        test_protocol_encode_decode::<SmartProtocol>(Event::Yield(handle));
        test_protocol_encode_decode::<SmartProtocol>(Event::Despawn(handle));
        for health in [0u8, 1, 50, 255] {
            test_protocol_encode_decode::<SmartProtocol>(Event::Health(handle, health));
            test_protocol_encode_decode::<SmartProtocol>(Event::Color(
                handle,
                Color::new(health, 0, 255, health),
            ));
        }
        for mesh_type in all_mesh_types() {
            test_protocol_encode_decode::<SmartProtocol>(Event::Spawn(handle, mesh_type));
            test_protocol_encode_decode::<SmartProtocol>(Event::PickUp(handle, mesh_type));
        }
    }
    for kind in [0u32, 1, u32::MAX] {
        test_protocol_encode_decode::<SmartProtocol>(Event::Custom(kind, vec![]));
        test_protocol_encode_decode::<SmartProtocol>(Event::Custom(kind, vec![0x1b, 0x0a, 0, 255]));
    }
    for map_index in [0usize, 1, 2, usize::MAX] {
        test_protocol_encode_decode::<SmartProtocol>(Event::MapChoice(map_index));
    }
}

#[test]
fn malformed_messages_decode_to_nothing() {
    assert_eq!(SmartProtocol::decode(&[]), None);
    assert_eq!(SmartProtocol::decode(&[b'?']), None);
    assert_eq!(SmartProtocol::decode(&[0]), None);
    assert_eq!(SmartProtocol::decode(&[b'r', 0]), None);
    assert_eq!(SmartProtocol::decode(&[b'S', 1, 2]), None);
    assert_eq!(SmartProtocol::decode(&[b'G', 1]), None);
    assert_eq!(SmartProtocol::decode(&[b'M', 1, 2, 3]), None);
    assert_eq!(SmartProtocol::decode(&[b'Y', 1, 2, 3, 4, 5, 6, 7]), None);
    assert_eq!(SmartProtocol::decode(&[b'Y', 1, 2, 3, 4, 5, 6, 7, 8, 9]), None);
    assert_eq!(SmartProtocol::decode(&[b'H', 0, 0, 0, 0, 0, 0, 0, 1]), None);
    assert_eq!(SmartProtocol::decode(&[b'c']), None);
    assert_eq!(SmartProtocol::decode(&[b'c', 1]), None);
    assert_eq!(SmartProtocol::decode(&[b'c', 1, 2, 3]), None);
    assert_eq!(
        SmartProtocol::decode(&[b'c', 0, 0, 0, 7]),
        Some(Event::Custom(7, vec![]))
    );
}

#[test]
fn indices_outside_the_orderings_decode_to_nothing() {
    let mut key = vec![b'd'];
    key.extend_from_slice(&(KEY_COUNT as u64).to_be_bytes());
    assert_eq!(SmartProtocol::decode(&key), None);
    let mut key = vec![b'u'];
    key.extend_from_slice(&u64::MAX.to_be_bytes());
    assert_eq!(SmartProtocol::decode(&key), None);
    let mut last_key = vec![b'd'];
    last_key.extend_from_slice(&((KEY_COUNT - 1) as u64).to_be_bytes());
    assert_eq!(SmartProtocol::decode(&last_key), Some(Event::KeyDown(KeyCode::Cut)));
    let mut spawn = vec![b'P'];
    spawn.extend_from_slice(&5u64.to_be_bytes());
    spawn.extend_from_slice(&6u64.to_be_bytes());
    assert_eq!(SmartProtocol::decode(&spawn), None);
    let mut pick_up = vec![b'p'];
    pick_up.extend_from_slice(&5u64.to_be_bytes());
    pick_up.extend_from_slice(&5u64.to_be_bytes());
    assert_eq!(
        SmartProtocol::decode(&pick_up),
        Some(Event::PickUp(5, MeshType::Nothing))
    );
}

#[test]
fn keys_and_meshes_travel_as_their_place_in_the_ordering() {
    assert_eq!(key_index(KeyCode::Key1), 0);
    assert_eq!(key_index(KeyCode::Up), 71);
    assert_eq!(key_index(KeyCode::Space), 76);
    assert_eq!(key_index(KeyCode::Cut), 160);
    assert_eq!(key_at(0), Some(KeyCode::Key1));
    assert_eq!(key_at(160), Some(KeyCode::Cut));
    assert_eq!(key_at(161), None);
    let keys = all_keys();
    assert_eq!(keys.len(), KEY_COUNT);
    for (index, key) in keys.iter().enumerate() {
        assert_eq!(key_index(*key), index);
        assert_eq!(key_at(index), Some(*key));
    }
    assert_eq!(
        SmartProtocol::encode(&Event::KeyDown(KeyCode::Space)),
        vec![b'd', 0, 0, 0, 0, 0, 0, 0, 76]
    );
    assert_eq!(
        SmartProtocol::encode(&Event::Spawn(3, MeshType::Heal)),
        vec![b'P', 0, 0, 0, 0, 0, 0, 0, 3, 0, 0, 0, 0, 0, 0, 0, 4]
    );
}

#[test]
fn numbers_are_written_big_endian() {
    assert_eq!(u32_to_bytes(0x0102_0304), vec![1, 2, 3, 4]);
    assert_eq!(u32_to_bytes(u32::MAX), vec![255, 255, 255, 255]);
    assert_eq!(u64_to_bytes(0x0102_0304_0506_0708), vec![1, 2, 3, 4, 5, 6, 7, 8]);
    assert_eq!(usize_to_bytes(258), vec![0, 0, 0, 0, 0, 0, 1, 2]);
    assert_eq!(i32_to_bytes(-2), vec![255, 255, 255, 254]);
    assert_eq!(i32_to_bytes(i32::MIN), vec![128, 0, 0, 0]);
    assert_eq!(i32_to_bytes(i32::MAX), vec![127, 255, 255, 255]);
    assert_eq!(scalar_to_bytes(1.0f32.to_bits()), 1.0f32.to_be_bytes().to_vec());
    for number in [0u32, 1, 255, 256, 0xdead_beef, u32::MAX] {
        assert_eq!(u32_to_bytes(number), number.to_be_bytes().to_vec());
    }
    for number in [0u64, 1, 0x1b, u64::MAX, 0x0123_4567_89ab_cdef] {
        assert_eq!(u64_to_bytes(number), number.to_be_bytes().to_vec());
    }
    for number in [0i32, -1, 1, i32::MIN, i32::MAX, -123456] {
        assert_eq!(i32_to_bytes(number), number.to_be_bytes().to_vec());
        assert_eq!(i32_from_bytes(&number.to_be_bytes()), number);
    }
}

#[test]
fn numbers_are_read_big_endian() {
    assert_eq!(unsigned_from_bytes(&[]), 0);
    assert_eq!(unsigned_from_bytes(&[1, 2]), 258);
    assert_eq!(unsigned_from_bytes(&[255; 16]), u128::MAX);
    let mut long = vec![7u8];
    long.extend_from_slice(&[0; 15]);
    long.push(9);
    assert_eq!(unsigned_from_bytes(&long), 9);
    assert_eq!(i32_from_bytes(&[255, 255, 255, 254]), -2);
    assert_eq!(i32_from_bytes(&[1]), 0x0100_0000);
    assert_eq!(i32_from_bytes(&[0, 0, 0, 5, 9]), 5);
    assert_eq!(scalar_from_bytes(&1.0f32.to_be_bytes()), 1.0f32.to_bits());
    assert_eq!(scalar_from_bytes(&[0x3F, 0x80]), 1.0f32.to_bits());
}
