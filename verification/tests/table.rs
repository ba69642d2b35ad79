use tauri_plugin_axum::{Error, ResourceKind, ResourceTable};

#[test]
fn handles_are_handed_out_in_order() {
    let mut table: ResourceTable<&str> = ResourceTable::new();
    assert!(table.has_room(3));
    assert_eq!(table.add(ResourceKind::Request, "a"), 0);
    assert_eq!(table.add(ResourceKind::Body, "b"), 1);
    assert_eq!(table.add_linked(ResourceKind::AbortReceiver, 0, "c"), 2);
    assert!(table.has(0) && table.has(1) && table.has(2));
    assert!(!table.has(3));
}

#[test]
fn get_checks_the_kind() {
    let mut table: ResourceTable<&str> = ResourceTable::new();
    let rid = table.add(ResourceKind::Request, "work");
    assert_eq!(table.get(rid, ResourceKind::Request).ok(), Some(&"work"));
    assert!(matches!(table.get(rid, ResourceKind::Body), Err(Error::NotFound(0))));
    assert!(matches!(table.get(9, ResourceKind::Request), Err(Error::NotFound(9))));
    assert!(table.has(rid));
}

#[test]
fn take_removes_only_on_success() {
    let mut table: ResourceTable<String> = ResourceTable::new();
    let rid = table.add(ResourceKind::Body, "payload".to_string());
    assert!(matches!(table.take(rid, ResourceKind::Request), Err(Error::NotFound(0))));
    assert!(table.has(rid));
    assert_eq!(table.take(rid, ResourceKind::Body).ok(), Some("payload".to_string()));
    assert!(!table.has(rid));
    assert!(matches!(table.take(rid, ResourceKind::Body), Err(Error::NotFound(0))));
}

#[test]
fn close_removes_whatever_the_kind() {
    let mut table: ResourceTable<u8> = ResourceTable::new();
    let a = table.add(ResourceKind::AbortSender, 1);
    let b = table.add(ResourceKind::Body, 2);
    assert!(table.close(a).is_ok());
    assert!(matches!(table.close(a), Err(Error::NotFound(0))));
    assert!(table.has(b));
    assert!(table.close(b).is_ok());
    assert!(!table.has(b));
}

#[test]
fn handles_are_not_reused() {
    let mut table: ResourceTable<u8> = ResourceTable::new();
    let a = table.add(ResourceKind::Request, 1);
    assert!(table.close(a).is_ok());
    let b = table.add(ResourceKind::Request, 2);
    assert_ne!(a, b);
    assert!(!table.has(a));
}

#[test]
fn peer_of_gives_the_link() {
    let mut table: ResourceTable<u8> = ResourceTable::new();
    let tx = table.add(ResourceKind::AbortSender, 1);
    let rx = table.add_linked(ResourceKind::AbortReceiver, tx, 2);
    assert_eq!(table.peer_of(rx, ResourceKind::AbortReceiver).ok(), Some(tx));
    assert_eq!(table.peer_of(tx, ResourceKind::AbortSender).ok(), Some(tx));
    assert!(matches!(table.peer_of(rx, ResourceKind::Body), Err(Error::NotFound(1))));
}
