use btrest::routes::{route, split_path, DeviceOp, Dispatch, Endpoint, Method};

fn segments(path: &str) -> Vec<String> {
    split_path(path)
}

#[test]
fn split_keeps_every_segment() {
    let segs = segments("/adapters/hci0/devices");
    assert_eq!(segs, vec!["", "adapters", "hci0", "devices"]);
}

#[test]
fn split_of_empty_path() {
    assert_eq!(segments(""), vec![""]);
}

#[test]
fn split_keeps_empty_segments() {
    assert_eq!(segments("/adapters//events"), vec!["", "adapters", "", "events"]);
}

#[test]
fn routes_adapter_listing() {
    let d = route(Method::Get, &segments("/adapters"));
    assert!(matches!(d, Dispatch::To(Endpoint::Adapters)));
}

#[test]
fn adapter_listing_is_get_only() {
    let d = route(Method::Post, &segments("/adapters"));
    assert!(matches!(d, Dispatch::NoRoute));
}

#[test]
fn routes_events_stream() {
    match route(Method::Get, &segments("/adapters/hci0/events")) {
        Dispatch::To(Endpoint::Events { name }) => assert_eq!(name, "hci0"),
        _ => panic!("events route missed"),
    }
}

#[test]
fn routes_discover_stream() {
    match route(Method::Post, &segments("/adapters/hci1/discover")) {
        Dispatch::To(Endpoint::Discover { name }) => assert_eq!(name, "hci1"),
        _ => panic!("discover route missed"),
    }
}

#[test]
fn discover_is_post_only() {
    let d = route(Method::Get, &segments("/adapters/hci1/discover"));
    assert!(matches!(d, Dispatch::NoRoute));
}

#[test]
fn routes_device_listing() {
    match route(Method::Get, &segments("/adapters/hci0/devices")) {
        Dispatch::To(Endpoint::Devices { name }) => assert_eq!(name, "hci0"),
        _ => panic!("devices route missed"),
    }
}

#[test]
fn routes_every_device_command() {
    let words = [
        ("pair", DeviceOp::Pair),
        ("unpair", DeviceOp::Unpair),
        ("connect", DeviceOp::Connect),
        ("disconnect", DeviceOp::Disconnect),
        ("trust", DeviceOp::Trust),
        ("untrust", DeviceOp::Untrust),
        ("block", DeviceOp::Block),
        ("unblock", DeviceOp::Unblock),
    ];
    for (word, op) in words {
        let path = format!("/adapters/hci0/devices/AA:BB:CC:DD:EE:FF/{}", word);
        match route(Method::Post, &segments(&path)) {
            Dispatch::To(Endpoint::Device { name, addr, op: got }) => {
                assert_eq!(name, "hci0");
                assert_eq!(addr.bytes, [0xAA, 0xBB, 0xCC, 0xDD, 0xEE, 0xFF]);
                assert_eq!(got, op);
            },
            _ => panic!("device command route missed: {}", word),
        }
    }
}

#[test]
fn device_commands_are_post_only() {
    let d = route(Method::Get, &segments("/adapters/hci0/devices/AA:BB:CC:DD:EE:FF/pair"));
    assert!(matches!(d, Dispatch::NoRoute));
}

#[test]
fn rejects_malformed_device_address() {
    let d = route(Method::Post, &segments("/adapters/hci0/devices/not-an-address/pair"));
    assert!(matches!(d, Dispatch::BadAddress));
}

#[test]
fn rejects_unknown_command_word() {
    let d = route(Method::Post, &segments("/adapters/hci0/devices/AA:BB:CC:DD:EE:FF/reset"));
    assert!(matches!(d, Dispatch::NoRoute));
}

#[test]
fn rejects_empty_adapter_name() {
    let d = route(Method::Get, &segments("/adapters//events"));
    assert!(matches!(d, Dispatch::NoRoute));
}

#[test]
fn adapter_names_may_hold_any_character_but_the_separator() {
    match route(Method::Get, &segments("/adapters/häci-0/events")) {
        Dispatch::To(Endpoint::Events { name }) => assert_eq!(name, "häci-0"),
        _ => panic!("events route missed"),
    }
}

#[test]
fn rejects_path_without_leading_separator() {
    let d = route(Method::Get, &segments("adapters"));
    assert!(matches!(d, Dispatch::NoRoute));
}

#[test]
fn rejects_unknown_prefix() {
    let d = route(Method::Get, &segments("/gadgets"));
    assert!(matches!(d, Dispatch::NoRoute));
}
