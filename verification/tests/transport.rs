use midi_capture::transport::{
    client_name, plan_subscriptions, Addr, PortDesc, Subscription, CAPTURE_PORT_CAP,
    CAPTURE_PORT_TYPE, DEFAULT_CLIENT_NAME, PORT_CAP_READ, PORT_CAP_SUBS_READ,
    PORT_CAP_SUBS_WRITE, PORT_CAP_WRITE, PORT_TYPE_APPLICATION, PORT_TYPE_MIDI_GENERIC,
};

fn port(client: i32, port: i32, capability: u32, kind: u32) -> PortDesc {
    PortDesc { addr: Addr { client, port }, capability, kind }
}

#[test]
fn the_default_name_stands_in_for_none() {
    assert_eq!(client_name(None), "rust_midi_capture");
    assert_eq!(client_name(None), DEFAULT_CLIENT_NAME);
    assert_eq!(client_name(Some("mixer")), "mixer");
    assert_eq!(client_name(Some("")), "");
}

#[test]
fn the_capture_port_can_be_written_and_subscribed_to() {
    assert_eq!(CAPTURE_PORT_CAP, PORT_CAP_WRITE | PORT_CAP_SUBS_WRITE);
    assert_eq!(CAPTURE_PORT_TYPE, PORT_TYPE_MIDI_GENERIC | PORT_TYPE_APPLICATION);
}

#[test]
fn a_source_is_readable_subscribable_plain_midi_and_not_ours() {
    let readable = PORT_CAP_READ | PORT_CAP_SUBS_READ;
    assert!(port(20, 0, readable, PORT_TYPE_MIDI_GENERIC).feeds(128));
    assert!(port(20, 0, 0xff, 0xffff_ffff).feeds(128));
    assert!(!port(128, 0, readable, PORT_TYPE_MIDI_GENERIC).feeds(128));
    assert!(!port(20, 0, PORT_CAP_READ, PORT_TYPE_MIDI_GENERIC).feeds(128));
    assert!(!port(20, 0, PORT_CAP_SUBS_READ, PORT_TYPE_MIDI_GENERIC).feeds(128));
    assert!(!port(20, 0, PORT_CAP_WRITE | PORT_CAP_SUBS_WRITE, PORT_TYPE_MIDI_GENERIC).feeds(128));
    assert!(!port(20, 0, readable, PORT_TYPE_APPLICATION).feeds(128));
    assert!(!port(20, 0, readable, 0).feeds(128));
}

#[test]
fn every_source_is_subscribed_in_the_order_of_the_ports() {
    let readable = PORT_CAP_READ | PORT_CAP_SUBS_READ;
    let dest = Addr { client: 128, port: 0 };
    let ports = vec![
        port(0, 0, readable, 0),
        port(14, 0, readable | PORT_CAP_WRITE, PORT_TYPE_MIDI_GENERIC),
        port(20, 0, readable, PORT_TYPE_MIDI_GENERIC | 0x1_0000),
        port(20, 1, PORT_CAP_WRITE, PORT_TYPE_MIDI_GENERIC),
        port(128, 0, readable | CAPTURE_PORT_CAP, CAPTURE_PORT_TYPE),
        port(24, 3, readable, PORT_TYPE_MIDI_GENERIC),
    ];
    assert_eq!(
        plan_subscriptions(&ports, dest),
        vec![
            Subscription { sender: Addr { client: 14, port: 0 }, dest },
            Subscription { sender: Addr { client: 20, port: 0 }, dest },
            Subscription { sender: Addr { client: 24, port: 3 }, dest },
        ]
    );
    assert_eq!(plan_subscriptions(&Vec::new(), dest), Vec::new());
}
