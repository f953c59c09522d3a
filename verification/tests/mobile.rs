use drbot::mobile::{
    BridgeConfig, DeviceCapabilities, DeviceInfo, DeviceStatus, DiscoveredDevice, DiscoveryEvent,
    MobileBridge, MobileChannel, MobileConfig, MobileDevice, MobileDiscovery, MobileError,
    MobileRequest, MobileResponse,
};

fn device(id: &str, device_type: &str, last_seen_millis: i64) -> DiscoveredDevice {
    DiscoveredDevice {
        id: id.to_string(),
        name: format!("Device {}", id),
        device_type: device_type.to_string(),
        ip: "192.168.1.100".to_string(),
        port: 8080,
        discovered_at_millis: 0,
        last_seen_millis,
        properties: vec![("os".to_string(), "17".to_string())],
    }
}

fn info(id: &str) -> DeviceInfo {
    DeviceInfo {
        id: id.to_string(),
        name: "Test iPhone".to_string(),
        device_type: "ios".to_string(),
        model: Some("iPhone 15".to_string()),
        os_version: Some("17.0".to_string()),
        app_version: Some("1.0.0".to_string()),
        capabilities: DeviceCapabilities::default(),
        status: DeviceStatus::Disconnected,
        connected_at_millis: None,
    }
}

#[test]
fn test_mobile_config_default() {
    let config = MobileConfig::default();
    assert_eq!(config.service_type, "_drbot._tcp.local.");
    assert_eq!(config.timeout_secs, 10);
}

#[test]
fn test_bridge_config_default() {
    let config = BridgeConfig::default();
    assert_eq!(config.port, 8765);
    assert_eq!(config.host, "0.0.0.0");
    assert!(!config.tls_enabled);
}

#[test]
fn test_mobile_bridge() {
    let config = BridgeConfig::default();
    let mut bridge = MobileBridge::new(config);

    assert!(!bridge.is_running());

    bridge.start().unwrap();
    assert!(bridge.is_running());
    assert_eq!(bridge.url(), "ws://0.0.0.0:8765");

    bridge.stop().unwrap();
    assert!(!bridge.is_running());
}

#[test]
fn bridge_url_with_tls() {
    let mut config = BridgeConfig::default();
    config.tls_enabled = true;
    config.host = "example.org".to_string();
    config.port = 443;
    assert_eq!(MobileBridge::new(config).url(), "wss://example.org:443");
}

#[test]
fn test_device_capabilities() {
    let caps = DeviceCapabilities::ios_default();
    assert!(caps.has_camera());
    assert!(caps.can_mirror_screen());
    assert!(caps.notifications);
}

#[test]
fn android_and_default_capabilities() {
    let caps = DeviceCapabilities::android_default();
    assert_eq!(caps.screen.unwrap().resolution, (1080, 2400));
    assert_eq!(caps.screen.unwrap().scale_percent, 275);
    let none = DeviceCapabilities::default();
    assert!(!none.has_camera());
    assert!(!none.can_mirror_screen());
}

#[test]
fn test_mobile_request() {
    let request = MobileRequest::take_photo(Some("front"));
    assert_eq!(request.request_type, "take_photo");
    assert_eq!(request.params, vec![("camera".to_string(), Some("front".to_string()))]);
    let request = MobileRequest::take_photo(None);
    assert_eq!(request.params, vec![("camera".to_string(), Some("back".to_string()))]);
}

#[test]
fn notifications_request_since() {
    let request = MobileRequest::get_notifications(Some(0));
    assert_eq!(request.request_type, "get_notifications");
    assert_eq!(
        request.params,
        vec![("since".to_string(), Some("1970-01-01T00:00:00+00:00".to_string()))]
    );
    let request = MobileRequest::get_notifications(None);
    assert_eq!(request.params, vec![("since".to_string(), None)]);
}

#[test]
fn test_mobile_response() {
    let id = uuid::Uuid::new_v4();
    let data: serde_json::Value = serde_json::from_str("{\"key\": \"value\"}").unwrap();
    let response = MobileResponse::success(id, data);
    assert!(response.success);
    assert_eq!(response.id, id);
    let failed = MobileResponse::error(id, "boom");
    assert!(!failed.success);
    assert_eq!(failed.error, Some("boom".to_string()));
    assert_eq!(failed.data, serde_json::Value::Object(serde_json::Map::new()));
}

#[test]
fn test_mobile_device() {
    let mut device = MobileDevice::connect("ws://192.168.1.100:8080/drbot", info("test-device")).unwrap();

    assert!(device.is_connected());
    assert_eq!(device.status(), DeviceStatus::Connected);
    assert!(device.info().connected_at_millis.is_some());
    assert_eq!(device.id(), "test-device");
    assert_eq!(device.take_photo(None).unwrap(), Vec::<u8>::new());
    assert!(device.get_notifications(None).unwrap().is_empty());

    device.disconnect().unwrap();
    assert_eq!(device.status(), DeviceStatus::Disconnected);
    match device.take_screenshot() {
        Err(MobileError::ConnectionFailed(m)) => assert_eq!(m, "Not connected"),
        _ => panic!("expected a connection failure"),
    }
}

#[test]
fn test_mobile_discovery() {
    let mut discovery = MobileDiscovery::new().unwrap();

    discovery.start().unwrap();
    assert!(discovery.is_running());

    discovery.add_device(device("test-device", "ios", 0));

    let devices = discovery.list_devices();
    assert_eq!(devices.len(), 1);
    assert!(devices[0].is_ios());

    discovery.stop().unwrap();
    assert!(!discovery.is_running());
    let events = discovery.take_events();
    assert_eq!(events.len(), 3);
    assert!(matches!(events[0], DiscoveryEvent::Started));
    assert!(matches!(&events[1], DiscoveryEvent::DeviceFound(d) if d.id == "test-device"));
    assert!(matches!(events[2], DiscoveryEvent::Stopped));
    assert!(discovery.take_events().is_empty());
}

#[test]
fn discovery_replaces_removes_and_cleans_up() {
    let mut discovery = MobileDiscovery::new().unwrap();
    discovery.add_device(device("a", "ios", 1_000));
    discovery.add_device(device("b", "Android", 50_000));
    discovery.add_device(device("c", "ios", 2_000));
    discovery.add_device(device("a", "ios", 60_000));
    let ids: Vec<&str> = discovery.list_devices().iter().map(|d| d.id.as_str()).collect();
    assert_eq!(ids, vec!["a", "b", "c"]);
    assert_eq!(discovery.get_device("a").unwrap().last_seen_millis, 60_000);
    assert!(discovery.get_device("b").unwrap().is_android());
    discovery.take_events();

    // At 70 s with a 30 s limit only c (seen at 2 s) is stale.
    assert_eq!(discovery.cleanup_stale_at(70_000, 30), 1);
    let ids: Vec<&str> = discovery.list_devices().iter().map(|d| d.id.as_str()).collect();
    assert_eq!(ids, vec!["a", "b"]);
    let events = discovery.take_events();
    assert!(matches!(&events[..], [DiscoveryEvent::DeviceLost(id)] if id == "c"));

    discovery.remove_device("b");
    discovery.remove_device("zzz");
    assert_eq!(discovery.list_devices().len(), 1);
    let events = discovery.take_events();
    assert!(matches!(&events[..], [DiscoveryEvent::DeviceLost(id)] if id == "b"));
    assert!(discovery.get_device("b").is_none());
}

#[test]
fn discovered_device_url_and_copy() {
    let d = device("x", "IOS", 5);
    assert_eq!(d.websocket_url(), "ws://192.168.1.100:8080/drbot");
    assert!(d.is_ios());
    assert!(!d.is_android());
    let copy = d.duplicate();
    assert_eq!(copy.id, d.id);
    assert_eq!(copy.properties, d.properties);
}

#[test]
fn test_mobile_channel() {
    let mut channel = MobileChannel::new().unwrap();

    channel.connect().unwrap();
    assert_eq!(channel.channel_type(), "mobile");
    assert!(channel.discovery().is_running());

    channel.add_device(MobileDevice::connect("ws://x", info("phone")).unwrap());
    assert!(channel.send("phone").is_ok());
    match channel.send("tablet") {
        Err(e) => assert_eq!(e.message(), "Device not found: tablet"),
        Ok(_) => panic!("expected an error"),
    }

    channel.disconnect().unwrap();
    assert!(!channel.discovery().is_running());
    assert_eq!(channel.list_devices()[0].status, DeviceStatus::Disconnected);
}

#[test]
fn mobile_error_messages() {
    assert_eq!(MobileError::Timeout.message(), "Timeout");
    assert_eq!(MobileError::NotSupported("x".to_string()).message(), "Operation not supported: x");
}
