use adcs_link::codec::{FrameDecoder, TelemetryRecord};
use adcs_link::session::{
    write_outcome, DiscoveredDevice, SessionError, SessionManager, ENDPOINT_UUID,
};

fn device(name: Option<&str>, address: &str) -> DiscoveredDevice {
    DiscoveredDevice {
        name: name.map(String::from),
        address: String::from(address),
    }
}

fn manager_with_sensor_a() -> SessionManager {
    let mut mgr = SessionManager::new();
    let listing = mgr
        .complete_scan(1, vec![device(Some("SensorA"), "AA:BB:CC:DD:EE:01")])
        .unwrap();
    assert_eq!(
        listing,
        vec![(String::from("SensorA"), String::from("AA:BB:CC:DD:EE:01"))]
    );
    mgr
}

#[test]
fn scan_without_adapter_fails() {
    let mut mgr = SessionManager::new();
    let r = mgr.complete_scan(0, vec![device(Some("SensorA"), "AA:BB:CC:DD:EE:01")]);
    assert_eq!(r, Err(SessionError::NoAdapter));
}

#[test]
fn scan_without_devices_fails() {
    let mut mgr = SessionManager::new();
    assert_eq!(mgr.complete_scan(1, vec![]), Err(SessionError::NoPeripheralsFound));
}

#[test]
fn scan_defaults_missing_names() {
    let mut mgr = SessionManager::new();
    let listing = mgr
        .complete_scan(
            2,
            vec![
                device(Some("SensorA"), "AA:BB:CC:DD:EE:01"),
                device(None, "AA:BB:CC:DD:EE:02"),
            ],
        )
        .unwrap();
    assert_eq!(
        listing,
        vec![
            (String::from("SensorA"), String::from("AA:BB:CC:DD:EE:01")),
            (String::new(), String::from("AA:BB:CC:DD:EE:02")),
        ]
    );
}

#[test]
fn connect_to_unknown_address_fails() {
    let mut mgr = manager_with_sensor_a();
    let addr = String::from("11:22:33:44:55:66");
    assert_eq!(mgr.begin_connect(&addr), Err(SessionError::DeviceNotFound));
    let r = mgr.complete_connect(&addr, true, &vec![ENDPOINT_UUID]);
    assert_eq!(r, (Err(SessionError::DeviceNotFound), true));
    assert!(!mgr.is_connected());
}

#[test]
fn connect_succeeds_on_known_device_with_endpoint() {
    let mut mgr = manager_with_sensor_a();
    let addr = String::from("AA:BB:CC:DD:EE:01");
    assert_eq!(mgr.begin_connect(&addr), Ok(()));
    let r = mgr.complete_connect(&addr, true, &vec![0x1234u128, ENDPOINT_UUID]);
    assert_eq!(r, (Ok(()), false));
    assert!(mgr.is_connected());
}

#[test]
fn transport_refusal_reports_connection_failed() {
    let mut mgr = manager_with_sensor_a();
    let addr = String::from("AA:BB:CC:DD:EE:01");
    let r = mgr.complete_connect(&addr, false, &vec![]);
    assert_eq!(r, (Err(SessionError::ConnectionFailed), false));
    assert!(!mgr.is_connected());
}

#[test]
fn second_connect_always_fails_with_already_connected() {
    let mut mgr = manager_with_sensor_a();
    let addr = String::from("AA:BB:CC:DD:EE:01");
    assert_eq!(
        mgr.complete_connect(&addr, true, &vec![ENDPOINT_UUID]),
        (Ok(()), false)
    );
    // Same address again.
    assert_eq!(mgr.begin_connect(&addr), Err(SessionError::AlreadyConnected));
    // Another address just as much: the caller must disconnect first.
    let other = String::from("AA:BB:CC:DD:EE:02");
    assert_eq!(mgr.begin_connect(&other), Err(SessionError::AlreadyConnected));
    // Even a completed second attempt is refused, and a link opened by
    // mistake is ordered closed, so two connections never stay open.
    let r = mgr.complete_connect(&other, true, &vec![ENDPOINT_UUID]);
    assert_eq!(r, (Err(SessionError::AlreadyConnected), true));
    assert!(mgr.is_connected());
}

#[test]
fn missing_endpoint_rolls_back() {
    let mut mgr = manager_with_sensor_a();
    let addr = String::from("AA:BB:CC:DD:EE:01");
    assert_eq!(mgr.begin_connect(&addr), Ok(()));
    let r = mgr.complete_connect(&addr, true, &vec![0xDEADu128, 0xBEEFu128]);
    // The attempt fails, the fresh link must be closed, and the manager is
    // not connected afterwards.
    assert_eq!(r, (Err(SessionError::IncompatibleDevice), true));
    assert!(!mgr.is_connected());
}

#[test]
fn disconnect_without_session_fails() {
    let mut mgr = SessionManager::new();
    assert_eq!(mgr.begin_disconnect(), Err(SessionError::NotConnected));
    assert_eq!(mgr.finish_disconnect(true), Err(SessionError::NotConnected));
}

#[test]
fn failed_disconnect_still_clears_the_session() {
    let mut mgr = manager_with_sensor_a();
    let addr = String::from("AA:BB:CC:DD:EE:01");
    mgr.complete_connect(&addr, true, &vec![ENDPOINT_UUID]).0.unwrap();
    assert_eq!(mgr.begin_disconnect(), Ok(()));
    // The transport failed to close the link: the error is reported, yet
    // the local session state is cleared nonetheless.
    assert_eq!(mgr.finish_disconnect(false), Err(SessionError::DisconnectFailed));
    assert!(!mgr.is_connected());
    assert_eq!(
        mgr.prepare_attitude(1, 2, 3),
        Err(SessionError::NotConnected)
    );
}

#[test]
fn write_outcome_maps_transport_report() {
    assert_eq!(write_outcome(true), Ok(()));
    assert_eq!(write_outcome(false), Err(SessionError::WriteFailed));
}

#[test]
fn end_to_end_scenario() {
    // Discovery finds one device.
    let mut mgr = SessionManager::new();
    let listing = mgr
        .complete_scan(1, vec![device(Some("SensorA"), "AA:BB:CC:DD:EE:01")])
        .unwrap();
    assert_eq!(
        listing,
        vec![(String::from("SensorA"), String::from("AA:BB:CC:DD:EE:01"))]
    );

    // Connecting to that address succeeds.
    let addr = String::from("AA:BB:CC:DD:EE:01");
    assert_eq!(mgr.begin_connect(&addr), Ok(()));
    assert_eq!(
        mgr.complete_connect(&addr, true, &vec![ENDPOINT_UUID]),
        (Ok(()), false)
    );
    assert!(mgr.is_connected());

    // The attitude command encodes to the exact wire bytes.
    let bytes = mgr.prepare_attitude(100, -200, 300).unwrap();
    assert_eq!(bytes, vec![0x02, 0x00, 0x64, 0xFF, 0x38, 0x01, 0x2C]);

    // One inbound chunk holding a whole telemetry frame yields one record.
    let mut dec = FrameDecoder::new();
    let records = dec.push_chunk(&vec![
        0x01, 0x00, 0x0A, 0x00, 0x01, 0x00, 0x14, 0x00, 0x02, 0xFF, 0xEC, 0x00, 0x03,
    ]);
    assert_eq!(
        records,
        vec![TelemetryRecord {
            x_angle: 10,
            x_acc: 1,
            y_angle: 20,
            y_acc: 2,
            z_angle: -20,
            z_acc: 3,
        }]
    );

    // Disconnect succeeds, and a further command is refused.
    assert_eq!(mgr.begin_disconnect(), Ok(()));
    assert_eq!(mgr.finish_disconnect(true), Ok(()));
    assert_eq!(
        mgr.prepare_attitude(100, -200, 300),
        Err(SessionError::NotConnected)
    );
}
