use libhi::{Coerced, Dispatch, OscArg, Message, Packet, OscTime, Registry, RegistryError};

fn registry() -> Registry<&'static str> {
    let mut r = Registry::new();
    r.register("/synth/1/freq", "f", "freq1").unwrap();
    r.register("/synth/2/freq", "f", "freq2").unwrap();
    r.register("/synth/1/gain", "i", "gain1").unwrap();
    r.register("/ping", "", "ping").unwrap();
    r
}

fn handlers(r: &Registry<&'static str>, plan: &[Dispatch]) -> Vec<&'static str> {
    plan.iter().map(|d| *r.handler(d.handler).callback()).collect()
}

#[test]
fn register_rejects_invalid_addresses() {
    let mut r: Registry<u8> = Registry::new();
    for bad in ["", "/", "synth", "/a/", "//a", "/a b", "/a*", "/a/{b,c}", "/é"] {
        assert_eq!(r.register(bad, "i", 1), Err(RegistryError::InvalidAddress), "{bad}");
    }
    assert_eq!(r.len(), 0);
    assert_eq!(r.register("/a/b-c_d.1", "i", 1), Ok(()));
    assert_eq!(r.len(), 1);
}

#[test]
fn register_then_lookup() {
    let mut r: Registry<u8> = Registry::new();
    r.register("/a", "if", 1).unwrap();
    r.register("/b", "s", 2).unwrap();
    let h = r.lookup("/a").unwrap();
    assert_eq!(h.types(), &['i', 'f']);
    assert_eq!(*h.callback(), 1);
    assert_eq!(h.address().as_str(), "/a");
    assert!(r.lookup("/c").is_none());
    assert!(r.lookup("not an address").is_none());
}

#[test]
fn register_again_replaces_in_place() {
    let mut r: Registry<u8> = Registry::new();
    r.register("/a", "i", 1).unwrap();
    r.register("/b", "i", 2).unwrap();
    r.register("/a", "ss", 3).unwrap();
    assert_eq!(r.len(), 2);
    assert_eq!(*r.handler(0).callback(), 3);
    assert_eq!(r.handler(0).types(), &['s', 's']);
    assert_eq!(*r.handler(1).callback(), 2);
}

#[test]
fn exact_address_runs_its_handler() {
    let r = registry();
    let plan = r.plan_message("/synth/1/gain", &[OscArg::Int(3)]);
    assert_eq!(handlers(&r, &plan), vec!["gain1"]);
    let args = plan[0].args.as_ref().unwrap();
    assert_eq!(args.len(), 1);
    assert!(matches!(args[0], Coerced::Value(OscArg::Int(3))));
}

#[test]
fn exact_address_with_no_arguments_is_a_get_request() {
    let r = registry();
    let plan = r.plan_message("/synth/1/gain", &[]);
    assert_eq!(handlers(&r, &plan), vec!["gain1"]);
    assert_eq!(plan[0].args.as_ref().unwrap().len(), 0);
}

#[test]
fn wrong_number_of_arguments_is_discarded() {
    let r = registry();
    let plan = r.plan_message("/synth/1/gain", &[OscArg::Int(3), OscArg::Int(4)]);
    assert!(plan.is_empty());
    let plan = r.plan_message("/ping", &[OscArg::Int(3)]);
    assert!(plan.is_empty());
}

#[test]
fn unknown_address_runs_nothing() {
    let r = registry();
    assert!(r.plan_message("/synth/3/freq", &[OscArg::Float(0)]).is_empty());
}

#[test]
fn pattern_runs_every_matching_handler_in_order() {
    let r = registry();
    let plan = r.plan_message("/synth/*/freq", &[OscArg::Int(1)]);
    assert_eq!(handlers(&r, &plan), vec!["freq1", "freq2"]);
    assert!(matches!(
        plan[0].args.as_ref().unwrap()[0],
        Coerced::Cast(libhi::FloatCast::IntToFloat(1))
    ));
    let plan = r.plan_message("/synth/1/*", &[]);
    assert_eq!(handlers(&r, &plan), vec!["freq1", "gain1"]);
    let plan = r.plan_message("/synth/[2-9]/freq", &[]);
    assert_eq!(handlers(&r, &plan), vec!["freq2"]);
    let plan = r.plan_message("/synth/1/{gain,volume}", &[]);
    assert_eq!(handlers(&r, &plan), vec!["gain1"]);
    let plan = r.plan_message("/p?ng", &[]);
    assert_eq!(handlers(&r, &plan), vec!["ping"]);
    let plan = r.plan_message("/nothing/*", &[]);
    assert!(plan.is_empty());
}

#[test]
fn invalid_pattern_runs_nothing() {
    let r = registry();
    assert!(r.plan_message("synth", &[]).is_empty());
    assert!(r.plan_message("", &[]).is_empty());
    assert!(r.plan_message("/synth/[z-a]", &[]).is_empty());
}

#[test]
fn undefined_coercion_is_marked() {
    let mut r: Registry<u8> = Registry::new();
    r.register("/x", "x", 1).unwrap();
    r.register("/y", "i", 2).unwrap();
    let plan = r.plan_message("/x", &[OscArg::Int(1)]);
    assert_eq!(plan.len(), 1);
    assert!(plan[0].args.is_none());
    let plan = r.plan_message("/x", &[]);
    assert!(plan[0].args.as_ref().unwrap().is_empty());
    let plan = r.plan_message("/y", &[OscArg::Array(vec![])]);
    assert!(plan[0].args.is_none());
}

fn msg(addr: &str, args: Vec<OscArg>) -> Packet {
    Packet::Message(Message { addr: addr.to_string(), args })
}

#[test]
fn bundle_runs_its_packets_in_order() {
    let r = registry();
    let inner = Packet::Bundle {
        timetag: OscTime { seconds: 0, fractional: 1 },
        content: vec![msg("/synth/1/freq", vec![]), msg("/ping", vec![])],
    };
    let packet = Packet::Bundle {
        timetag: OscTime { seconds: 1, fractional: 0 },
        content: vec![msg("/synth/2/freq", vec![]), inner, msg("/synth/1/gain", vec![OscArg::Int(2)])],
    };
    let plan = r.plan_packet(&packet);
    assert_eq!(handlers(&r, &plan), vec!["freq2", "freq1", "ping", "gain1"]);
}

#[test]
fn message_packet_is_the_message_plan() {
    let r = registry();
    let plan = r.plan_packet(&msg("/synth/*/freq", vec![]));
    assert_eq!(handlers(&r, &plan), vec!["freq1", "freq2"]);
    let empty = Packet::Bundle { timetag: OscTime { seconds: 0, fractional: 0 }, content: vec![] };
    assert!(r.plan_packet(&empty).is_empty());
}

#[test]
fn addresses_and_patterns() {
    assert!(libhi::Address::new("/a/b").is_some());
    assert!(libhi::Address::new("/a/*").is_none());
    let p = libhi::AddressPattern::new("/a/*").unwrap();
    let a = libhi::Address::new("/a/b").unwrap();
    let b = libhi::Address::new("/b/b").unwrap();
    assert!(p.matches(&a));
    assert!(!p.matches(&b));
    assert!(libhi::AddressPattern::new("a").is_none());
    let same = libhi::AddressPattern::new("/a/b").unwrap();
    assert!(same.matches(&a));
    assert!(a.same_as(&libhi::Address::new("/a/b").unwrap()));
    assert!(!a.same_as(&b));
}

fn datagram(packet: &rosc::OscPacket) -> Vec<u8> {
    rosc::encoder::encode(packet).unwrap()
}

#[test]
fn datagram_runs_the_handlers_of_its_packet() {
    let r = registry();
    let bytes = datagram(&rosc::OscPacket::Message(rosc::OscMessage {
        addr: "/synth/1/freq".to_string(),
        args: vec![rosc::OscType::Float(2.5)],
    }));
    let mut buf = bytes.clone();
    buf.extend_from_slice(&[0, 0, 0, 0]);
    let plan = r.plan_datagram(&buf, bytes.len()).unwrap();
    assert_eq!(handlers(&r, &plan), vec!["freq1"]);
    assert!(matches!(
        plan[0].args.as_ref().unwrap()[0],
        Coerced::Value(OscArg::Float(bits)) if bits == 2.5f32.to_bits()
    ));
}

#[test]
fn datagram_of_a_bundle() {
    let r = registry();
    let bytes = datagram(&rosc::OscPacket::Bundle(rosc::OscBundle {
        timetag: rosc::OscTime { seconds: 1, fractional: 2 },
        content: vec![
            rosc::OscPacket::Message(rosc::OscMessage { addr: "/ping".to_string(), args: vec![] }),
            rosc::OscPacket::Message(rosc::OscMessage {
                addr: "/synth/*/freq".to_string(),
                args: vec![],
            }),
        ],
    }));
    let plan = r.plan_datagram(&bytes, bytes.len()).unwrap();
    assert_eq!(handlers(&r, &plan), vec!["ping", "freq1", "freq2"]);
}

#[test]
fn bad_datagram_is_an_error() {
    let r = registry();
    assert!(r.plan_datagram(&[1, 2, 3], 3).is_err());
    let bytes = datagram(&rosc::OscPacket::Message(rosc::OscMessage {
        addr: "/ping".to_string(),
        args: vec![],
    }));
    assert!(r.plan_datagram(&bytes, 0).is_err());
    assert!(r.plan_datagram(&bytes, bytes.len()).is_ok());
}

#[test]
fn dropped_arguments_are_reported() {
    let mut r: Registry<u8> = Registry::new();
    r.register("/x", "isf", 1).unwrap();
    let plan = r.plan_message("/x", &[OscArg::Int(1), OscArg::Int(2), OscArg::Nil]);
    assert_eq!(plan.len(), 1);
    assert_eq!(plan[0].args.as_ref().unwrap().len(), 1);
    assert_eq!(plan[0].unsupported, vec!['s', 'f']);
    assert_eq!(
        libhi::unsupported_arguments(&[OscArg::Int(1), OscArg::Nil], &['i', 'f']),
        vec!['f']
    );
}

#[test]
fn datagram_error_is_rosc_error() {
    let r = registry();
    let bytes = [b'/', b'a', 0, 0, b',', b'q', 0, 0];
    let ours = r.plan_datagram(&bytes, bytes.len()).err().unwrap();
    let theirs = rosc::decoder::decode_udp(&bytes).err().unwrap();
    assert_eq!(format!("{:?}", ours), format!("{:?}", theirs));
}
