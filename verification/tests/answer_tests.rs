use libhi::{Address, OscAnswer, OscArg, Packet, SocketAddress};

fn from() -> SocketAddress {
    SocketAddress::V4 { ip: [127, 0, 0, 1], port: 50000 }
}

#[test]
fn fresh_answer_is_prefilled() {
    let a = OscAnswer::reply_to(&Address::new("/status").unwrap(), from());
    assert_eq!(a.osc_address(), "/status");
    assert!(a.arguments().is_empty());
    assert_eq!(a.return_address(), from());
    assert!(!a.will_be_sent());
    assert!(a.into_reply().is_none());
}

#[test]
fn set_port_keeps_the_ip() {
    let mut a = OscAnswer::reply_to(&Address::new("/status").unwrap(), from());
    a.set_port(50010);
    assert_eq!(a.return_address(), SocketAddress::V4 { ip: [127, 0, 0, 1], port: 50010 });
    let v6 = SocketAddress::V6 { ip: [0; 16], port: 1, flowinfo: 7, scope_id: 9 };
    a.set_return_address(&v6);
    a.set_port(2);
    assert_eq!(a.return_address(), SocketAddress::V6 { ip: [0; 16], port: 2, flowinfo: 7, scope_id: 9 });
}

#[test]
fn arguments_keep_the_order_of_the_calls() {
    let mut a = OscAnswer::reply_to(&Address::new("/status").unwrap(), from());
    a.add_argument(OscArg::Int(1));
    a.add_argument(OscArg::String("two".into()));
    a.add_argument(OscArg::Bool(true));
    let args = a.arguments();
    assert_eq!(args.len(), 3);
    assert!(matches!(args[0], OscArg::Int(1)));
    assert!(matches!(&args[1], OscArg::String(s) if s == "two"));
    assert!(matches!(args[2], OscArg::Bool(true)));
    a.replace_arguments(vec![OscArg::Nil]);
    assert_eq!(a.arguments().len(), 1);
    assert!(matches!(a.arguments()[0], OscArg::Nil));
}

#[test]
fn marked_answer_is_sent() {
    let mut a = OscAnswer::reply_to(&Address::new("/status").unwrap(), from());
    a.set_osc_address("/reply");
    a.add_argument(OscArg::Int(5));
    a.mark_send(true);
    a.mark_send(false);
    a.mark_send(true);
    let (packet, to) = a.into_reply().unwrap();
    assert_eq!(to, from());
    match packet {
        Packet::Message(m) => {
            assert_eq!(m.addr, "/reply");
            assert!(matches!(m.args[..], [OscArg::Int(5)]));
        }
        _ => panic!("expected a message"),
    }
}

#[test]
fn unmarked_answer_is_not_sent() {
    let mut a = OscAnswer::reply_to(&Address::new("/status").unwrap(), from());
    a.mark_send(true);
    a.mark_send(false);
    assert!(a.into_reply().is_none());
}

#[test]
fn socket_address_port() {
    let mut s = from();
    assert_eq!(s.port(), 50000);
    s.set_port(1);
    assert_eq!(s.port(), 1);
}
