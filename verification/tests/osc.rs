use perihelion::osc::{
    chatbox_message, decode_datagram, extract_perihelion_value, listening_request, typing_message,
    OscArg, Packet, MTU, PERIHELION_ADDRESS,
};
use rosc::{OscBundle, OscMessage, OscPacket, OscTime, OscType};

fn message(addr: &str, args: Vec<OscArg>) -> Packet {
    Packet::Message { addr: addr.to_string(), args }
}

fn parameter(args: Vec<OscArg>) -> Packet {
    message(PERIHELION_ADDRESS, args)
}

fn wire(addr: &str, args: Vec<OscType>) -> OscPacket {
    OscPacket::Message(OscMessage { addr: addr.to_string(), args })
}

fn bundle(content: Vec<OscPacket>) -> OscPacket {
    OscPacket::Bundle(OscBundle { timetag: OscTime { seconds: 1, fractional: 2 }, content })
}

fn request(packet: OscPacket) -> Option<bool> {
    listening_request(&rosc::encoder::encode(&packet).unwrap())
}

#[test]
fn a_boolean_switches() {
    assert_eq!(extract_perihelion_value(&parameter(vec![OscArg::Bool(true)])), Some(true));
    assert_eq!(extract_perihelion_value(&parameter(vec![OscArg::Bool(false)])), Some(false));
}

#[test]
fn an_integer_switches() {
    for (value, on) in [(1, true), (7, true), (0, false), (-1, false), (i32::MIN, false)] {
        assert_eq!(extract_perihelion_value(&parameter(vec![OscArg::Int(value)])), Some(on));
    }
}

#[test]
fn a_float_switches_above_one_half() {
    let values = [
        0.0,
        -0.0,
        0.5,
        0.50000006,
        0.49999997,
        1.0,
        -1.0,
        1e30,
        -1e30,
        f32::MIN_POSITIVE,
        f32::INFINITY,
        f32::NEG_INFINITY,
        f32::NAN,
        -f32::NAN,
    ];
    for value in values {
        let arg = OscArg::Float(value.to_bits());
        assert_eq!(extract_perihelion_value(&parameter(vec![arg])), Some(value > 0.5), "{value}");
    }
}

#[test]
fn other_arguments_switch_off() {
    assert_eq!(extract_perihelion_value(&parameter(vec![])), Some(false));
    assert_eq!(
        extract_perihelion_value(&parameter(vec![OscArg::Text("on".to_string())])),
        Some(false)
    );
    assert_eq!(extract_perihelion_value(&parameter(vec![OscArg::Other])), Some(false));
    assert_eq!(
        extract_perihelion_value(&parameter(vec![OscArg::Bool(true), OscArg::Bool(true)])),
        Some(false)
    );
}

#[test]
fn other_addresses_say_nothing() {
    let packet = message("/avatar/parameters/perihelion2", vec![OscArg::Bool(true)]);
    assert_eq!(extract_perihelion_value(&packet), None);
    let packet = message("/avatar/parameters/Perihelion", vec![OscArg::Bool(true)]);
    assert_eq!(extract_perihelion_value(&packet), None);
}

#[test]
fn the_first_message_of_a_bundle_decides() {
    let packet = Packet::Bundle {
        content: vec![
            message("/other", vec![OscArg::Bool(true)]),
            Packet::Bundle { content: vec![] },
            Packet::Bundle {
                content: vec![message("/x", vec![]), parameter(vec![OscArg::Int(0)])],
            },
            parameter(vec![OscArg::Bool(true)]),
        ],
    };
    assert_eq!(extract_perihelion_value(&packet), Some(false));
    assert_eq!(extract_perihelion_value(&Packet::Bundle { content: vec![] }), None);
}

#[test]
fn datagrams_switch() {
    let on = |arg| request(wire(PERIHELION_ADDRESS, vec![arg]));
    assert_eq!(on(OscType::Bool(true)), Some(true));
    assert_eq!(on(OscType::Bool(false)), Some(false));
    assert_eq!(on(OscType::Int(3)), Some(true));
    assert_eq!(on(OscType::Int(-3)), Some(false));
    assert_eq!(on(OscType::Float(0.75)), Some(true));
    assert_eq!(on(OscType::Float(0.25)), Some(false));
    assert_eq!(on(OscType::Nil), Some(false));
    assert_eq!(on(OscType::Double(1.0)), Some(false));
    assert_eq!(request(wire(PERIHELION_ADDRESS, vec![])), Some(false));
    assert_eq!(request(wire("/other", vec![OscType::Bool(true)])), None);
}

#[test]
fn bundles_in_datagrams_are_searched() {
    let packet = bundle(vec![
        wire("/a", vec![OscType::String("b".to_string())]),
        bundle(vec![wire(PERIHELION_ADDRESS, vec![OscType::Int(1)])]),
        wire(PERIHELION_ADDRESS, vec![OscType::Int(0)]),
    ]);
    assert_eq!(request(packet), Some(true));
    assert_eq!(request(bundle(vec![])), None);
}

#[test]
fn what_is_no_packet_says_nothing() {
    assert_eq!(listening_request(&[]), None);
    assert_eq!(listening_request(b"perihelion\0\0"), None);
    assert_eq!(listening_request(b"/avatar"), None);
    assert_eq!(listening_request(&[0xff; 16]), None);
    assert_eq!(listening_request(&[0; MTU]), None);
}

#[test]
fn a_datagram_is_taken_apart() {
    let packet = wire(
        "/a/b",
        vec![
            OscType::Int(-2),
            OscType::Float(1.5),
            OscType::String("準備".to_string()),
            OscType::Bool(true),
            OscType::Nil,
        ],
    );
    let bytes = rosc::encoder::encode(&packet).unwrap();
    match decode_datagram(&bytes) {
        Some(Packet::Message { addr, args }) => {
            assert_eq!(addr, "/a/b");
            assert_eq!(args.len(), 5);
            assert!(matches!(args[0], OscArg::Int(-2)));
            assert!(matches!(args[1], OscArg::Float(bits) if f32::from_bits(bits) == 1.5));
            assert!(matches!(&args[2], OscArg::Text(text) if text == "準備"));
            assert!(matches!(args[3], OscArg::Bool(true)));
            assert!(matches!(args[4], OscArg::Other));
        }
        other => panic!("{other:?}"),
    }
    match decode_datagram(&rosc::encoder::encode(&bundle(vec![packet])).unwrap()) {
        Some(Packet::Bundle { content }) => assert_eq!(content.len(), 1),
        other => panic!("{other:?}"),
    }
}

#[test]
fn the_chatbox_message_byte_by_byte() {
    let mut expected = b"/chatbox/input\0\0".to_vec();
    expected.extend_from_slice(b",sT\0");
    expected.extend_from_slice(b"hello\0\0\0");
    assert_eq!(chatbox_message("hello"), expected);
    let mut expected = b"/chatbox/input\0\0,sT\0".to_vec();
    expected.extend_from_slice("完了\0\0".as_bytes());
    assert_eq!(chatbox_message("完了"), expected);
}

#[test]
fn the_typing_message_byte_by_byte() {
    assert_eq!(typing_message(true), b"/chatbox/typing\0,T\0\0".to_vec());
    assert_eq!(typing_message(false), b"/chatbox/typing\0,F\0\0".to_vec());
}

#[test]
fn the_chatbox_gets_one_hundred_and_forty_characters() {
    for (count, sent) in [(0, 0), (139, 139), (140, 140), (141, 140), (500, 140)] {
        let text = "語".repeat(count);
        let (_, packet) = rosc::decoder::decode_udp(&chatbox_message(&text)).unwrap();
        let expected = wire(
            "/chatbox/input",
            vec![OscType::String("語".repeat(sent)), OscType::Bool(true)],
        );
        assert_eq!(packet, expected);
    }
}

#[test]
fn what_is_sent_is_read_back() {
    match decode_datagram(&typing_message(true)) {
        Some(Packet::Message { addr, args }) => {
            assert_eq!(addr, "/chatbox/typing");
            assert!(matches!(args[..], [OscArg::Bool(true)]));
        }
        other => panic!("{other:?}"),
    }
}
