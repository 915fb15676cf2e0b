use btrest::address::Address;
use btrest::devices::{build_listing, DeviceInfo};
use btrest::error::{AppError, AppOk};
use btrest::response::{HttpResponse, ResponseBody, StreamKind};
use btrest::routes::{DeviceOp, Endpoint};
use btrest::service::{handle, AdapterState, BtState};

fn addr(bytes: [u8; 6]) -> Address {
    Address { bytes }
}

fn device(bytes: [u8; 6], name: &str) -> DeviceInfo {
    DeviceInfo {
        address: addr(bytes),
        name: Some(name.to_owned()),
        icon: None,
        rssi: Some(-40),
        is_connected: false,
        is_paired: false,
        is_trusted: false,
        is_blocked: false,
    }
}

fn state() -> BtState {
    BtState {
        adapters: vec![
            AdapterState {
                name: "hci0".to_owned(),
                devices: vec![
                    device([0xAA, 0xBB, 0xCC, 0xDD, 0xEE, 0xFF], "keyboard"),
                    device([0x10, 0x20, 0x30, 0x40, 0x50, 0x60], "headset"),
                ],
            },
            AdapterState { name: "hci1".to_owned(), devices: vec![] },
        ],
    }
}

fn body_text(r: &HttpResponse) -> &str {
    match &r.body {
        ResponseBody::Text(t) => t,
        _ => panic!("expected a text body"),
    }
}

#[test]
fn adapters_listing_names_every_adapter() {
    let mut st = state();
    let r = handle(&mut st, Endpoint::Adapters);
    assert_eq!(r.status, 200);
    match r.body {
        ResponseBody::AdapterNames(names) => assert_eq!(names, vec!["hci0", "hci1"]),
        _ => panic!("expected the adapter names"),
    }
}

#[test]
fn unknown_adapter_is_not_found_everywhere() {
    let mut st = state();
    let r = handle(&mut st, Endpoint::Events { name: "hci9".to_owned() });
    assert_eq!(r.status, 404);
    assert_eq!(body_text(&r), "not found");
    let r = handle(&mut st, Endpoint::Discover { name: "hci9".to_owned() });
    assert_eq!(r.status, 404);
    let r = handle(&mut st, Endpoint::Devices { name: "hci9".to_owned() });
    assert_eq!(r.status, 404);
    let r = handle(
        &mut st,
        Endpoint::Device {
            name: "hci9".to_owned(),
            addr: addr([0xAA, 0xBB, 0xCC, 0xDD, 0xEE, 0xFF]),
            op: DeviceOp::Pair,
        },
    );
    assert_eq!(r.status, 404);
    assert_eq!(body_text(&r), "not found");
}

#[test]
fn unknown_device_is_not_found_for_every_command() {
    let ops = [
        DeviceOp::Pair,
        DeviceOp::Unpair,
        DeviceOp::Connect,
        DeviceOp::Disconnect,
        DeviceOp::Trust,
        DeviceOp::Untrust,
        DeviceOp::Block,
        DeviceOp::Unblock,
    ];
    for op in ops {
        let mut st = state();
        let r = handle(
            &mut st,
            Endpoint::Device {
                name: "hci0".to_owned(),
                addr: addr([0x01, 0x02, 0x03, 0x04, 0x05, 0x06]),
                op,
            },
        );
        assert_eq!(r.status, 404);
        assert_eq!(body_text(&r), "not found");
        assert_eq!(st.adapters[0].devices.len(), 2);
    }
}

#[test]
fn known_adapter_streams_open() {
    let mut st = state();
    let r = handle(&mut st, Endpoint::Events { name: "hci0".to_owned() });
    assert_eq!(r.status, 200);
    assert!(matches!(r.body, ResponseBody::Stream(StreamKind::Events)));
    let r = handle(&mut st, Endpoint::Discover { name: "hci1".to_owned() });
    assert_eq!(r.status, 200);
    assert!(matches!(r.body, ResponseBody::Stream(StreamKind::Discover)));
}

#[test]
fn device_listing_has_one_entry_per_address() {
    let mut st = state();
    let r = handle(&mut st, Endpoint::Devices { name: "hci0".to_owned() });
    assert_eq!(r.status, 200);
    match r.body {
        ResponseBody::DeviceList(ds) => {
            assert_eq!(ds.len(), 2);
            assert_eq!(ds[0].address.bytes, [0xAA, 0xBB, 0xCC, 0xDD, 0xEE, 0xFF]);
            assert_eq!(ds[0].name.as_deref(), Some("keyboard"));
            assert_eq!(ds[1].address.bytes, [0x10, 0x20, 0x30, 0x40, 0x50, 0x60]);
            assert_eq!(ds[1].name.as_deref(), Some("headset"));
        },
        _ => panic!("expected the device listing"),
    }
}

#[test]
fn empty_adapter_lists_no_devices() {
    let mut st = state();
    let r = handle(&mut st, Endpoint::Devices { name: "hci1".to_owned() });
    assert_eq!(r.status, 200);
    match r.body {
        ResponseBody::DeviceList(ds) => assert!(ds.is_empty()),
        _ => panic!("expected the device listing"),
    }
}

#[test]
fn pair_on_missing_device_is_not_found_and_on_existing_acknowledged() {
    let mut st = state();
    let missing = handle(
        &mut st,
        Endpoint::Device {
            name: "hci0".to_owned(),
            addr: addr([0x99, 0x99, 0x99, 0x99, 0x99, 0x99]),
            op: DeviceOp::Pair,
        },
    );
    assert_eq!(missing.status, 404);
    assert_eq!(body_text(&missing), "not found");

    let ok = handle(
        &mut st,
        Endpoint::Device {
            name: "hci0".to_owned(),
            addr: addr([0xAA, 0xBB, 0xCC, 0xDD, 0xEE, 0xFF]),
            op: DeviceOp::Pair,
        },
    );
    assert_eq!(ok.status, 200);
    assert_eq!(body_text(&ok), "ok");
    assert!(st.adapters[0].devices[0].is_paired);
}

#[test]
fn trust_twice_keeps_the_flag_and_untrust_clears_it() {
    let mut st = state();
    let target = addr([0xAA, 0xBB, 0xCC, 0xDD, 0xEE, 0xFF]);
    let r = handle(
        &mut st,
        Endpoint::Device { name: "hci0".to_owned(), addr: target, op: DeviceOp::Trust },
    );
    assert_eq!(r.status, 200);
    assert!(st.adapters[0].devices[0].is_trusted);
    let r = handle(
        &mut st,
        Endpoint::Device { name: "hci0".to_owned(), addr: target, op: DeviceOp::Trust },
    );
    assert_eq!(r.status, 200);
    assert!(st.adapters[0].devices[0].is_trusted);
    let r = handle(
        &mut st,
        Endpoint::Device { name: "hci0".to_owned(), addr: target, op: DeviceOp::Untrust },
    );
    assert_eq!(r.status, 200);
    assert!(!st.adapters[0].devices[0].is_trusted);
}

#[test]
fn block_and_unblock_set_and_clear_the_flag() {
    let mut st = state();
    let target = addr([0x10, 0x20, 0x30, 0x40, 0x50, 0x60]);
    handle(&mut st, Endpoint::Device { name: "hci0".to_owned(), addr: target, op: DeviceOp::Block });
    assert!(st.adapters[0].devices[1].is_blocked);
    handle(
        &mut st,
        Endpoint::Device { name: "hci0".to_owned(), addr: target, op: DeviceOp::Unblock },
    );
    assert!(!st.adapters[0].devices[1].is_blocked);
}

#[test]
fn connect_and_disconnect_set_and_clear_the_flag() {
    let mut st = state();
    let target = addr([0xAA, 0xBB, 0xCC, 0xDD, 0xEE, 0xFF]);
    handle(
        &mut st,
        Endpoint::Device { name: "hci0".to_owned(), addr: target, op: DeviceOp::Connect },
    );
    assert!(st.adapters[0].devices[0].is_connected);
    handle(
        &mut st,
        Endpoint::Device { name: "hci0".to_owned(), addr: target, op: DeviceOp::Disconnect },
    );
    assert!(!st.adapters[0].devices[0].is_connected);
}

#[test]
fn unpair_removes_the_record() {
    let mut st = state();
    let target = addr([0xAA, 0xBB, 0xCC, 0xDD, 0xEE, 0xFF]);
    let r = handle(
        &mut st,
        Endpoint::Device { name: "hci0".to_owned(), addr: target, op: DeviceOp::Unpair },
    );
    assert_eq!(r.status, 200);
    assert_eq!(st.adapters[0].devices.len(), 1);
    assert_eq!(st.adapters[0].devices[0].address.bytes, [0x10, 0x20, 0x30, 0x40, 0x50, 0x60]);
}

#[test]
fn listing_succeeds_only_when_every_fetch_succeeded() {
    let all_ok = vec![
        Ok(device([0xAA, 0xBB, 0xCC, 0xDD, 0xEE, 0xFF], "keyboard")),
        Ok(device([0x10, 0x20, 0x30, 0x40, 0x50, 0x60], "headset")),
    ];
    let list = build_listing(all_ok).unwrap();
    assert_eq!(list.len(), 2);
    assert_eq!(list[0].name.as_deref(), Some("keyboard"));
    assert_eq!(list[1].name.as_deref(), Some("headset"));
}

#[test]
fn one_failed_fetch_fails_the_whole_listing() {
    let mixed = vec![
        Ok(device([0xAA, 0xBB, 0xCC, 0xDD, 0xEE, 0xFF], "keyboard")),
        Err(AppError::Error("fetch failed".to_owned())),
        Ok(device([0x10, 0x20, 0x30, 0x40, 0x50, 0x60], "headset")),
    ];
    match build_listing(mixed) {
        Err(AppError::Error(m)) => assert_eq!(m, "fetch failed"),
        _ => panic!("the listing must fail as a whole"),
    }
}

#[test]
fn first_failure_wins() {
    let mixed = vec![
        Err(AppError::NotFound),
        Err(AppError::Error("later".to_owned())),
    ];
    assert!(matches!(build_listing(mixed), Err(AppError::NotFound)));
}

#[test]
fn success_acknowledgment_renders_as_ok() {
    let r = AppOk.into_response();
    assert_eq!(r.status, 200);
    assert_eq!(body_text(&r), "ok");
}

#[test]
fn not_found_renders_with_fixed_body() {
    let r = AppError::NotFound.into_response();
    assert_eq!(r.status, 404);
    assert_eq!(body_text(&r), "not found");
}

#[test]
fn other_failures_render_with_their_message() {
    let r = AppError::Error("dbus transport broke".to_owned()).into_response();
    assert_eq!(r.status, 500);
    assert_eq!(body_text(&r), "dbus transport broke");
}

#[test]
fn subsystem_reports_classify_by_kind() {
    assert!(matches!(AppError::from_report(true, "gone".to_owned()), AppError::NotFound));
    match AppError::from_report(false, "weird".to_owned()) {
        AppError::Error(m) => assert_eq!(m, "weird"),
        _ => panic!("a plain failure must keep its message"),
    }
}
