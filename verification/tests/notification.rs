use agentos_core::notification::{
    FakeNotificationSink, MacOsMockNotificationSink, MacOsNotificationConfig,
    MacOsNotificationSink, MemoryNotificationStore, Notification, NotificationError,
    NotificationId, NotificationSink, NotificationType,
};

/// 2026-05-25T12:00:00Z in Unix seconds.
fn ts() -> i64 {
    1779710400
}

fn note(id: &str, kind: NotificationType) -> Notification {
    Notification {
        id: NotificationId::from(id),
        title: format!("Title {}", id),
        body: format!("Body {}", id),
        notification_type: kind,
        source_reminder_id: None,
        created_at: ts(),
        read_at: None,
    }
}

#[test]
fn macos_notification_sink_config_default() {
    let config = MacOsNotificationConfig::default();
    assert_eq!(config.app_name, "AgentOS");
    assert!(config.sound.is_some());
}

#[test]
fn macos_notification_sink_config_custom() {
    let config = MacOsNotificationConfig { app_name: "MyApp".to_string(), sound: Some("Ping".to_string()) };
    assert_eq!(config.app_name, "MyApp");
    assert_eq!(config.sound.as_deref(), Some("Ping"));
}

#[test]
fn macos_mock_sink_default_is_empty() {
    let sink = MacOsMockNotificationSink::new();
    assert_eq!(sink.count(), 0);
    assert!(sink.last().is_none());
    assert!(sink.all().is_empty());
}

#[test]
fn macos_mock_sink_records_in_order_and_clears() {
    let mut sink = MacOsMockNotificationSink::new();
    for i in 0..3 {
        sink.emit(&note(&format!("n-{}", i), NotificationType::Info)).unwrap();
    }
    assert_eq!(sink.count(), 3);
    let all = sink.all();
    assert_eq!(all[0].id.0, "n-0");
    assert_eq!(all[1].id.0, "n-1");
    assert_eq!(all[2].id.0, "n-2");
    assert_eq!(sink.last().unwrap().id.0, "n-2");
    sink.clear();
    assert_eq!(sink.count(), 0);
}

#[test]
fn macos_sink_line_names_app_title_and_body() {
    let sink = MacOsNotificationSink::new(MacOsNotificationConfig::default());
    assert_eq!(sink.line(&note("n-1", NotificationType::ReminderDue)), "[AgentOS] Title n-1: Body n-1");
}

#[test]
fn fake_sink_collects_emitted_notifications() {
    let mut sink = FakeNotificationSink::new();
    assert_eq!(sink.count(), 0);
    sink.emit(&note("n-1", NotificationType::SystemAlert)).unwrap();
    assert_eq!(sink.count(), 1);
    assert_eq!(sink.emitted()[0].id, NotificationId::from("n-1"));
}

#[test]
fn store_save_and_get() {
    let mut store = MemoryNotificationStore::new();
    let n = note("n-1", NotificationType::ReminderDue);
    store.save(&n).unwrap();
    assert_eq!(store.get(&NotificationId::from("n-1")).unwrap(), n);
    assert_eq!(store.list().len(), 1);
}

#[test]
fn store_save_replaces_same_id() {
    let mut store = MemoryNotificationStore::new();
    store.save(&note("n-1", NotificationType::Info)).unwrap();
    let mut updated = note("n-1", NotificationType::Info);
    updated.title = "Updated".to_string();
    store.save(&updated).unwrap();
    assert_eq!(store.list().len(), 1);
    assert_eq!(store.get(&NotificationId::from("n-1")).unwrap().title, "Updated");
}

#[test]
fn store_get_not_found() {
    let store = MemoryNotificationStore::new();
    assert_eq!(
        store.get(&NotificationId::from("missing")),
        Err(NotificationError::NotFound("missing".to_string()))
    );
}

#[test]
fn store_list_unread_and_mark_read() {
    let mut store = MemoryNotificationStore::new();
    store.save(&note("n-1", NotificationType::Info)).unwrap();
    store.save(&note("n-2", NotificationType::Info)).unwrap();
    store.mark_read_at(&NotificationId::from("n-1"), ts() + 60).unwrap();
    let unread = store.list_unread();
    assert_eq!(unread.len(), 1);
    assert_eq!(unread[0].id, NotificationId::from("n-2"));
    assert_eq!(store.get(&NotificationId::from("n-1")).unwrap().read_at, Some(ts() + 60));
    assert!(store.mark_read(&NotificationId::from("n-2")).is_ok());
    assert!(store.get(&NotificationId::from("n-2")).unwrap().read_at.is_some());
    assert!(store.mark_read(&NotificationId::from("missing")).is_err());
}

#[test]
fn notification_type_display() {
    assert_eq!(NotificationType::ReminderDue.to_string(), "ReminderDue");
    assert_eq!(NotificationType::Info.to_string(), "Info");
}
