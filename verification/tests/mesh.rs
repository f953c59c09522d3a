use drbot::mesh::{
    Change, ChangeType, ConflictResolution, Device, DeviceCapability, DeviceStatus, DeviceType,
    HandoffResult, MeshEngine, MeshError, MessageRole, ParticipantRole, Platform,
};

fn known_devices() -> Vec<Device> {
    vec![
        Device {
            id: "device-1".to_string(),
            name: "MacBook".to_string(),
            device_type: DeviceType::Laptop,
            platform: Platform::MacOS,
            capabilities: vec![
                DeviceCapability::Display,
                DeviceCapability::Keyboard,
                DeviceCapability::LocalInference,
            ],
            status: DeviceStatus::Online,
            last_seen: 0,
            ip_address: Some("192.168.1.10".to_string()),
            owner_id: "user-1".to_string(),
        },
        Device {
            id: "device-2".to_string(),
            name: "iPhone".to_string(),
            device_type: DeviceType::Phone,
            platform: Platform::iOS,
            capabilities: vec![
                DeviceCapability::Display,
                DeviceCapability::Touch,
                DeviceCapability::Notifications,
            ],
            status: DeviceStatus::Online,
            last_seen: 0,
            ip_address: Some("192.168.1.11".to_string()),
            owner_id: "user-1".to_string(),
        },
    ]
}

fn accepted(session_id: &str, to: &str) -> Result<HandoffResult, MeshError> {
    Ok(HandoffResult {
        success: true,
        session_id: session_id.to_string(),
        new_device_id: to.to_string(),
        context_transferred: true,
        error: None,
    })
}

fn change(id: &str) -> Change {
    Change {
        id: id.to_string(),
        change_type: ChangeType::Create,
        entity_type: "session".to_string(),
        entity_id: "session-1".to_string(),
        data: serde_json::Value::Object(serde_json::Map::new()),
        timestamp: 0,
        device_id: "local".to_string(),
    }
}

#[test]
fn test_device_discovery() {
    let mut engine = MeshEngine::new("local".to_string());
    let devices = engine.discover_devices(Ok(known_devices())).unwrap();
    assert_eq!(devices.len(), 2);
}

#[test]
fn test_online_devices() {
    let mut engine = MeshEngine::new("local".to_string());
    engine.discover_devices(Ok(known_devices())).unwrap();
    let online = engine.get_online_devices();
    assert_eq!(online.len(), 2);
}

#[test]
fn test_devices_by_capability() {
    let mut engine = MeshEngine::new("local".to_string());
    engine.discover_devices(Ok(known_devices())).unwrap();
    let with_keyboard = engine.get_devices_by_capability(DeviceCapability::Keyboard);
    assert_eq!(with_keyboard.len(), 1);
    assert_eq!(with_keyboard[0].name, "MacBook");
}

#[test]
fn test_session_creation() {
    let mut engine = MeshEngine::new("local".to_string());
    let session = engine.create_session("user-1").unwrap();
    assert_eq!(session.user_id, "user-1");
    assert_eq!(session.active_device_id, "local");
}

#[test]
fn test_session_messages() {
    let mut engine = MeshEngine::new("local".to_string());
    let session = engine.create_session("user-1").unwrap();
    engine.add_message_to_session(&session.id, MessageRole::User, "Hello").unwrap();
    engine.add_message_to_session(&session.id, MessageRole::Assistant, "Hi!").unwrap();
    let updated = engine.get_session(&session.id).unwrap();
    assert_eq!(updated.context.messages.len(), 2);
}

#[test]
fn test_session_handoff() {
    let mut engine = MeshEngine::new("local".to_string());
    engine.discover_devices(Ok(known_devices())).unwrap();
    let session = engine.create_session("user-1").unwrap();
    let request = engine.handoff_request(&session.id, "device-2").unwrap();
    let result = engine
        .handoff_to_device(&session.id, "device-2", accepted(&request.session_id, &request.to_device_id))
        .unwrap();
    assert!(result.success);
    let updated = engine.get_session(&session.id).unwrap();
    assert_eq!(updated.active_device_id, "device-2");
    assert_eq!(updated.history.len(), 2);
}

#[test]
fn test_collaborative_session() {
    let mut engine = MeshEngine::new("local".to_string());
    let session = engine.create_collaborative_session("Team Chat", "user-1").unwrap();
    assert_eq!(session.participants.len(), 1);
    engine
        .join_collaborative_session(&session.id, "user-2", ParticipantRole::Editor)
        .unwrap();
    let updated = engine.collaborative_session(&session.id).unwrap();
    assert_eq!(updated.participants.len(), 2);
}

#[test]
fn test_document_sharing() {
    let mut engine = MeshEngine::new("local".to_string());
    let session = engine.create_collaborative_session("Work", "user-1").unwrap();
    let doc = engine.share_document(&session.id, "notes.txt", "Hello world").unwrap();
    assert_eq!(doc.name, "notes.txt");
}

#[test]
fn test_sync() {
    let mut engine = MeshEngine::new("local".to_string());
    engine.initialize_sync().unwrap();
    engine.record_change(change("change-1")).unwrap();
    let pending = engine.get_pending_changes();
    assert_eq!(pending.len(), 1);
    engine.sync_state().unwrap();
    let remote = engine.sync(Ok(vec![])).unwrap();
    assert!(remote.is_empty());
    let pending_after = engine.get_pending_changes();
    assert!(pending_after.is_empty());
}

#[test]
fn mesh_discovery_failure_keeps_devices() {
    let mut engine = MeshEngine::new("local".to_string());
    let r = engine.discover_devices(Err(MeshError::ProviderError("down".to_string())));
    assert_eq!(r.unwrap_err().message(), "Provider error: down");
    assert!(engine.get_online_devices().is_empty());
    assert_eq!(
        engine.get_device("device-1").unwrap_err(),
        MeshError::DeviceNotFound("device-1".to_string())
    );
}

#[test]
fn mesh_later_report_replaces_device() {
    let mut engine = MeshEngine::new("local".to_string());
    engine.discover_devices(Ok(known_devices())).unwrap();
    let mut again = known_devices();
    again[0].status = DeviceStatus::Offline;
    again[0].name = "MacBook Pro".to_string();
    engine.discover_devices(Ok(again)).unwrap();
    let d = engine.get_device("device-1").unwrap();
    assert_eq!(d.name, "MacBook Pro");
    let online = engine.get_online_devices();
    assert_eq!(online.len(), 1);
    assert_eq!(online[0].id, "device-2");
}

#[test]
fn mesh_connect_and_disconnect_set_status() {
    let mut engine = MeshEngine::new("local".to_string());
    let mut ds = known_devices();
    ds[1].status = DeviceStatus::Away;
    engine.discover_devices(Ok(ds)).unwrap();
    engine.connect_to_device_at("device-2", Ok(()), 1234).unwrap();
    let d = engine.get_device("device-2").unwrap();
    assert_eq!(d.status, DeviceStatus::Online);
    assert_eq!(d.last_seen, 1234);
    engine.disconnect_from_device("device-1", Ok(())).unwrap();
    assert_eq!(engine.get_device("device-1").unwrap().status, DeviceStatus::Offline);
    let failed = engine.disconnect_from_device("device-2", Err(MeshError::ConnectionFailed("x".to_string())));
    assert!(failed.is_err());
    assert_eq!(engine.get_device("device-2").unwrap().status, DeviceStatus::Online);
}

#[test]
fn mesh_session_identifiers_and_messages_at() {
    let mut engine = MeshEngine::new("local".to_string());
    let session = engine.create_session_at("user-1", 1700000000).unwrap();
    assert_eq!(session.id, "session-1700000000");
    assert_eq!(session.history[0].device_name, "Local");
    assert_eq!(session.history[0].ended_at, None);
    engine
        .add_message_to_session_at(&session.id, MessageRole::User, "Hello", 1700000005)
        .unwrap();
    let s = engine.get_session(&session.id).unwrap();
    assert_eq!(s.context.messages[0].id, "msg-1700000005");
    assert_eq!(s.context.messages[0].content, "Hello");
    assert_eq!(s.updated_at, 1700000005);
    let missing = engine.add_message_to_session("nope", MessageRole::User, "x");
    assert_eq!(missing.unwrap_err().message(), "Device not found: Session nope");
}

#[test]
fn mesh_handoff_history_and_unknown_device() {
    let mut engine = MeshEngine::new("local".to_string());
    let session = engine.create_session_at("user-1", 100).unwrap();
    let request = engine.handoff_request(&session.id, "tablet").unwrap();
    assert_eq!(request.from_device_id, "local");
    assert!(request.preserve_context && request.notify_user);
    engine
        .handoff_to_device_at(&session.id, "tablet", accepted(&session.id, "tablet"), 200)
        .unwrap();
    let s = engine.get_session(&session.id).unwrap();
    assert_eq!(s.history[0].ended_at, Some(200));
    assert_eq!(s.history[1].device_name, "Unknown");
    assert_eq!(s.history[1].started_at, 200);
    let declined = Ok(HandoffResult {
        success: false,
        session_id: session.id.clone(),
        new_device_id: "local".to_string(),
        context_transferred: false,
        error: Some("busy".to_string()),
    });
    let r = engine.request_handoff_here_at(&session.id, declined, 300).unwrap();
    assert!(!r.success);
    assert_eq!(engine.get_session(&session.id).unwrap().active_device_id, "tablet");
    engine.request_handoff_here_at(&session.id, accepted(&session.id, "local"), 400).unwrap();
    let s = engine.get_session(&session.id).unwrap();
    assert_eq!(s.active_device_id, "local");
    assert_eq!(s.history.len(), 3);
    assert!(engine.handoff_request("nope", "x").is_err());
}

#[test]
fn mesh_best_handoff_target_prefers_score() {
    let mut engine = MeshEngine::new("local".to_string());
    engine.discover_devices(Ok(known_devices())).unwrap();
    let session = engine.create_session("user-1").unwrap();
    let best = engine.find_best_handoff_target(&session.id).unwrap().unwrap();
    assert_eq!(best.id, "device-1");
    engine
        .handoff_to_device(&session.id, "device-1", accepted(&session.id, "device-1"))
        .unwrap();
    let best = engine.find_best_handoff_target(&session.id).unwrap().unwrap();
    assert_eq!(best.id, "device-2");
    assert!(engine.find_best_handoff_target("nope").is_err());
}

#[test]
fn mesh_best_handoff_target_last_of_equals() {
    let mut engine = MeshEngine::new("local".to_string());
    let mut ds = known_devices();
    ds[0].capabilities = vec![DeviceCapability::Display];
    engine.discover_devices(Ok(ds)).unwrap();
    let session = engine.create_session("user-1").unwrap();
    let best = engine.find_best_handoff_target(&session.id).unwrap().unwrap();
    assert_eq!(best.id, "device-2");
}

#[test]
fn mesh_join_twice_and_leave() {
    let mut engine = MeshEngine::new("local".to_string());
    let session = engine.create_collaborative_session_at("Team", "user-1", 50).unwrap();
    assert_eq!(session.id, "collab-50");
    engine
        .join_collaborative_session(&session.id, "user-2", ParticipantRole::Viewer)
        .unwrap();
    engine
        .join_collaborative_session(&session.id, "user-2", ParticipantRole::Editor)
        .unwrap();
    let c = engine.collaborative_session(&session.id).unwrap();
    assert_eq!(c.participants.len(), 2);
    assert_eq!(c.participants[1].role, ParticipantRole::Viewer);
    engine.leave_collaborative_session(&session.id, "user-1").unwrap();
    let c = engine.collaborative_session(&session.id).unwrap();
    assert_eq!(c.participants.len(), 1);
    assert_eq!(c.participants[0].user_id, "user-2");
    assert!(engine.leave_collaborative_session("nope", "user-2").is_err());
}

#[test]
fn mesh_shared_document_fields() {
    let mut engine = MeshEngine::new("local".to_string());
    let session = engine.create_collaborative_session("Work", "user-1").unwrap();
    let doc = engine.share_document_at(&session.id, "a.md", "text", 77).unwrap();
    assert_eq!(doc.id, "doc-77");
    assert_eq!(doc.last_modified_by, "local");
    let c = engine.collaborative_session(&session.id).unwrap();
    assert_eq!(c.shared_context.documents.len(), 1);
    assert!(engine.share_document("nope", "a", "b").is_err());
}

#[test]
fn mesh_sync_before_initialisation() {
    let mut engine = MeshEngine::new("local".to_string());
    assert_eq!(
        engine.record_change(change("c")).unwrap_err(),
        MeshError::SyncFailed("Sync not initialized".to_string())
    );
    assert!(engine.get_pending_changes().is_empty());
    assert!(engine.sync(Ok(vec![])).is_err());
    assert!(engine.resolve_conflict("c", ConflictResolution::Merge).is_err());
}

#[test]
fn mesh_sync_versions_and_failures() {
    let mut engine = MeshEngine::new("local".to_string());
    let state = engine.initialize_sync_at(10).unwrap();
    assert_eq!(state.sync_version, 0);
    assert_eq!(state.device_id, "local");
    engine.record_change(change("c1")).unwrap();
    let failed = engine.sync_at(Err(MeshError::SyncFailed("net".to_string())), 20);
    assert!(failed.is_err());
    assert_eq!(engine.get_pending_changes().len(), 1);
    let remote = engine.sync_at(Ok(vec![change("r1")]), 30).unwrap();
    assert_eq!(remote.len(), 1);
    let s = engine.sync_state().unwrap();
    assert_eq!(s.sync_version, 1);
    assert_eq!(s.last_sync, 30);
    assert!(engine.resolve_conflict("none", ConflictResolution::UseLocal).is_ok());
}
