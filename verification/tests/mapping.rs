use mondaybot::sync::mapping::{MappingEntry, SyncMapping};

fn entry(beads: &str, monday: &str) -> MappingEntry {
    MappingEntry {
        beads_id: beads.to_string(),
        monday_item_id: monday.to_string(),
        is_subitem: false,
        parent_monday_id: None,
        last_synced: "2026-03-11T12:00:00Z".to_string(),
    }
}

#[test]
fn empty_registry() {
    let m = SyncMapping::empty();
    assert_eq!(m.board_id, 0);
    assert!(m.entries.is_empty());
    assert!(m.find_by_beads_id("a").is_none());
}

#[test]
fn add_then_find() {
    let mut m = SyncMapping::empty();
    m.add(entry("abc-1", "111"));
    m.add(entry("abc-2", "222"));
    assert_eq!(m.find_by_beads_id("abc-1").unwrap().monday_item_id, "111");
    assert_eq!(m.find_by_monday_id("222").unwrap().beads_id, "abc-2");
    assert!(m.find_by_monday_id("333").is_none());
}

#[test]
fn add_replaces_same_beads_id() {
    let mut m = SyncMapping::empty();
    m.add(entry("abc-1", "111"));
    m.add(entry("abc-2", "222"));
    m.add(entry("abc-1", "999"));
    assert_eq!(m.entries.len(), 2);
    assert_eq!(m.entries[0].monday_item_id, "999");
    assert_eq!(m.entries[1].monday_item_id, "222");
    assert_eq!(m.find_by_beads_id("abc-2").unwrap().monday_item_id, "222");
}

#[test]
fn remove_by_beads_id_reports_whether_found() {
    let mut m = SyncMapping::empty();
    m.add(entry("a", "1"));
    m.add(entry("b", "2"));
    assert!(m.remove_by_beads_id("a"));
    assert!(m.find_by_beads_id("a").is_none());
    assert_eq!(m.entries.len(), 1);
    assert!(!m.remove_by_beads_id("a"));
    assert_eq!(m.entries.len(), 1);
}

#[test]
fn remove_drops_every_duplicate() {
    let mut m = SyncMapping::empty();
    m.entries.push(entry("a", "1"));
    m.entries.push(entry("b", "2"));
    m.entries.push(entry("a", "3"));
    assert!(m.remove_by_beads_id("a"));
    assert_eq!(m.entries.len(), 1);
    assert_eq!(m.entries[0].beads_id, "b");
}

#[test]
fn find_returns_first_duplicate() {
    let mut m = SyncMapping::empty();
    m.entries.push(entry("a", "1"));
    m.entries.push(entry("a", "2"));
    assert_eq!(m.find_by_beads_id("a").unwrap().monday_item_id, "1");
    m.add(entry("a", "9"));
    assert_eq!(m.entries[0].monday_item_id, "9");
    assert_eq!(m.entries[1].monday_item_id, "2");
}

#[test]
fn add_then_remove_restores() {
    let mut m = SyncMapping::empty();
    m.add(entry("a", "1"));
    m.add(entry("b", "2"));
    let before: Vec<String> = m.entries.iter().map(|e| e.beads_id.clone()).collect();
    m.add(entry("c", "3"));
    assert!(m.remove_by_beads_id("c"));
    let after: Vec<String> = m.entries.iter().map(|e| e.beads_id.clone()).collect();
    assert_eq!(before, after);
}

#[test]
fn record_link_stamps_utc_time() {
    let mut m = SyncMapping::empty();
    let stamp = m.record_link("a".to_string(), "1".to_string(), true, Some("0".to_string()));
    assert!(stamp.ends_with("+00:00"), "{stamp}");
    assert!(stamp.len() >= 25);
    let e = m.find_by_beads_id("a").unwrap();
    assert_eq!(e.last_synced, stamp);
    assert!(e.is_subitem);
    assert_eq!(e.parent_monday_id.as_deref(), Some("0"));
}

#[test]
fn refresh_keeps_link_and_restamps() {
    let mut m = SyncMapping::empty();
    m.add(entry("a", "1"));
    let old = m.entries[0].clone();
    let stamp = m.refresh(&old);
    assert_eq!(m.entries.len(), 1);
    assert_eq!(m.entries[0].monday_item_id, "1");
    assert_eq!(m.entries[0].last_synced, stamp);
    assert_ne!(stamp, old.last_synced);
}

#[test]
fn adopt_board_id_only_when_unset() {
    let mut m = SyncMapping::empty();
    m.adopt_board_id(None);
    assert_eq!(m.board_id, 0);
    m.adopt_board_id(Some(42));
    assert_eq!(m.board_id, 42);
    m.adopt_board_id(Some(7));
    assert_eq!(m.board_id, 42);
}

#[test]
fn clone_keeps_everything() {
    let mut m = SyncMapping::empty();
    m.board_id = 5;
    m.add(entry("a", "1"));
    let c = m.clone();
    assert_eq!(c.board_id, 5);
    assert_eq!(c.entries[0].beads_id, "a");
    assert_eq!(c.entries[0].last_synced, "2026-03-11T12:00:00Z");
}
