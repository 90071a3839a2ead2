use std::path::PathBuf;

use mondaybot::api::types::{ColumnValue, Item};
use mondaybot::beads::{BeadsCli, BeadsIssue};
use mondaybot::config::{Config, ConfigError};
use mondaybot::sync::mapping::{MappingEntry, SyncMapping};
use mondaybot::sync::update::{
    column_text, is_status_conflict, monday_status_as_beads, pull_status_command, ConflictChoice, MondayLookup,
    StatusColumn, StatusReport, UpdateRun,
};
use mondaybot::sync::columns::LabelIndexMap;
use mondaybot::sync::values::ColumnSetting;

fn cfg() -> Config {
    let mut c = Config::default();
    c.board_id = Some(77);
    c.status_column = Some("Status".to_string());
    c
}

/// The board's status column "Status" resolved to its id "status".
fn sc() -> Option<StatusColumn> {
    let mut labels = LabelIndexMap::new();
    labels.insert("To Do".to_string(), 0);
    labels.insert("In Progress".to_string(), 1);
    labels.insert("Done".to_string(), 2);
    Some(StatusColumn { id: "status".to_string(), labels })
}

fn item(id: &str, name: &str, status: Option<&str>) -> Item {
    Item {
        id: id.to_string(),
        name: name.to_string(),
        group: None,
        column_values: vec![
            ColumnValue { id: "text".to_string(), text: Some("x".to_string()), value: None },
            ColumnValue { id: "status".to_string(), text: status.map(String::from), value: None },
        ],
        subitems: None,
        board: None,
    }
}

fn issue(id: &str, title: &str, status: &str) -> BeadsIssue {
    BeadsIssue {
        id: id.to_string(),
        title: title.to_string(),
        description: String::new(),
        status: status.to_string(),
        priority: 2,
        issue_type: "task".to_string(),
        created_at: "c".to_string(),
        updated_at: "u".to_string(),
        closed_at: None,
        dependencies: None,
        dependency_count: 0,
    }
}

fn entry(beads: &str, monday: &str) -> MappingEntry {
    MappingEntry {
        beads_id: beads.to_string(),
        monday_item_id: monday.to_string(),
        is_subitem: false,
        parent_monday_id: None,
        last_synced: "then".to_string(),
    }
}

fn mapping() -> SyncMapping {
    let mut m = SyncMapping::empty();
    m.add(entry("a", "1"));
    m
}

fn bd() -> BeadsCli {
    BeadsCli::new(PathBuf::from("."))
}

#[test]
fn column_text_reads_first_nonempty() {
    let it = item("1", "n", Some("Done"));
    assert_eq!(column_text(&it, "status").as_deref(), Some("Done"));
    assert_eq!(column_text(&it, "missing"), None);
    let empty = item("1", "n", Some(""));
    assert_eq!(column_text(&empty, "status"), None);
    let none = item("1", "n", None);
    assert_eq!(column_text(&none, "status"), None);
}

#[test]
fn monday_status_in_beads_terms() {
    let c = cfg();
    assert_eq!(monday_status_as_beads(&c, &sc(), &item("1", "n", Some("Done"))), "closed");
    assert_eq!(monday_status_as_beads(&c, &sc(), &item("1", "n", Some("Waiting On Review"))), "waiting_on_review");
    assert_eq!(monday_status_as_beads(&c, &sc(), &item("1", "n", None)), "");
    assert_eq!(monday_status_as_beads(&Config::default(), &None, &item("1", "n", Some("Done"))), "");
}

#[test]
fn pull_command_closes_or_updates() {
    assert_eq!(
        pull_status_command(&bd(), "a", "closed").args,
        vec!["close", "a", "--json", "--reason", "synced from monday.com"]
    );
    assert_eq!(pull_status_command(&bd(), "a", "open").args, vec!["update", "a", "--status", "open", "--json"]);
}

fn one_step(
    c: &Config,
    direction: &str,
    choice: ConflictChoice,
    beads: Result<BeadsIssue, String>,
    monday: MondayLookup,
) -> (Result<mondaybot::sync::update::EntryEffects, ConfigError>, UpdateRun) {
    let mut run = UpdateRun::start(mapping());
    let r = run.step(c, &sc(), &bd(), direction, choice, &beads, &monday);
    (r, run)
}

#[test]
fn beads_error_is_recorded() {
    let (r, run) = one_step(&cfg(), "both", ConflictChoice::Beads, Err("boom".to_string()), MondayLookup::Missing);
    let fx = r.unwrap();
    assert!(fx.monday.is_none() && fx.beads.is_none() && fx.synced_at.is_none());
    assert_eq!(run.result().errors[0].error, "beads issue not found: boom");
    assert_eq!(run.result().errors[0].beads_id, "a");
    assert!(run.current().is_none());
    assert_eq!(run.mapping().entries[0].last_synced, "then");
}

#[test]
fn missing_and_failed_items_are_recorded() {
    let (_, run) = one_step(&cfg(), "both", ConflictChoice::Beads, Ok(issue("a", "t", "open")), MondayLookup::Missing);
    assert_eq!(run.result().errors[0].error, "monday item 1 not found (deleted?)");
    let (_, run) = one_step(
        &cfg(),
        "both",
        ConflictChoice::Beads,
        Ok(issue("a", "t", "open")),
        MondayLookup::Failed("HTTP 500".to_string()),
    );
    assert_eq!(run.result().errors[0].error, "monday API error: HTTP 500");
}

#[test]
fn unchanged_when_status_and_name_agree() {
    let (r, run) = one_step(
        &cfg(),
        "both",
        ConflictChoice::Beads,
        Ok(issue("a", "Title", "open")),
        MondayLookup::Found(item("1", "Title", Some("To Do"))),
    );
    assert!(r.unwrap().synced_at.is_none());
    assert_eq!(run.result().unchanged, vec!["a".to_string()]);
}

#[test]
fn empty_monday_status_counts_as_agreement() {
    let (_, run) = one_step(
        &cfg(),
        "both",
        ConflictChoice::Beads,
        Ok(issue("a", "Title", "open")),
        MondayLookup::Found(item("1", "Title", None)),
    );
    assert_eq!(run.result().unchanged.len(), 1);
}

#[test]
fn conflict_beads_wins_pushes_label() {
    let (r, run) = one_step(
        &cfg(),
        "both",
        ConflictChoice::Beads,
        Ok(issue("a", "Title", "in_progress")),
        MondayLookup::Found(item("1", "Title", Some("Done"))),
    );
    let fx = r.unwrap();
    let push = fx.monday.unwrap();
    assert_eq!(push.board_id, 77);
    assert_eq!(push.item_id, "1");
    let entries = push.values.entries();
    assert_eq!(entries.len(), 1);
    assert_eq!(entries[0].0, "status");
    assert!(matches!(&entries[0].1, ColumnSetting::Index(1)));
    assert!(fx.beads.is_none());
    let c = &run.result().conflicts[0];
    assert_eq!(c.beads_value, "in_progress");
    assert_eq!(c.monday_value, "closed");
    assert_eq!(c.resolved, "beads_wins");
    assert_eq!(c.field, "status");
    let stamp = fx.synced_at.unwrap();
    assert_eq!(run.mapping().entries[0].last_synced, stamp);
    assert_eq!(run.mapping().entries.len(), 1);
}

#[test]
fn conflict_monday_choice_pulls() {
    let (r, run) = one_step(
        &cfg(),
        "both",
        ConflictChoice::Monday,
        Ok(issue("a", "Title", "in_progress")),
        MondayLookup::Found(item("1", "Title", Some("Done"))),
    );
    let fx = r.unwrap();
    assert!(fx.monday.is_none());
    assert_eq!(fx.beads.unwrap().args, vec!["close", "a", "--json", "--reason", "synced from monday.com"]);
    assert_eq!(run.result().conflicts[0].resolved, "monday_wins");
}

#[test]
fn conflict_skip_writes_nothing() {
    let (r, run) = one_step(
        &cfg(),
        "both",
        ConflictChoice::Skip,
        Ok(issue("a", "Title", "in_progress")),
        MondayLookup::Found(item("1", "Title", Some("Done"))),
    );
    let fx = r.unwrap();
    assert!(fx.monday.is_none() && fx.beads.is_none());
    assert_eq!(run.result().conflicts[0].resolved, "skipped");
    assert!(fx.synced_at.is_some());
}

#[test]
fn push_direction_updates_monday() {
    let (r, run) = one_step(
        &cfg(),
        "push",
        ConflictChoice::Beads,
        Ok(issue("a", "Title", "open")),
        MondayLookup::Found(item("1", "Title", Some("Done"))),
    );
    assert!(r.unwrap().monday.is_some());
    let u = &run.result().updated[0];
    assert_eq!((u.old_value.as_str(), u.new_value.as_str(), u.direction.as_str()), ("closed", "open", "push"));
}

#[test]
fn pull_direction_updates_beads() {
    let (r, run) = one_step(
        &cfg(),
        "pull",
        ConflictChoice::Beads,
        Ok(issue("a", "Title", "open")),
        MondayLookup::Found(item("1", "Title", Some("In Progress"))),
    );
    let fx = r.unwrap();
    assert!(fx.monday.is_none());
    assert_eq!(fx.beads.unwrap().args, vec!["update", "a", "--status", "in_progress", "--json"]);
    let u = &run.result().updated[0];
    assert_eq!((u.old_value.as_str(), u.new_value.as_str(), u.direction.as_str()), ("open", "in_progress", "pull"));
}

#[test]
fn name_change_only_restamps() {
    let (r, run) = one_step(
        &cfg(),
        "both",
        ConflictChoice::Beads,
        Ok(issue("a", "New title", "open")),
        MondayLookup::Found(item("1", "Old title", Some("To Do"))),
    );
    let fx = r.unwrap();
    assert!(fx.monday.is_none() && fx.beads.is_none());
    assert!(fx.synced_at.is_some());
    assert!(run.result().updated.is_empty() && run.result().conflicts.is_empty() && run.result().unchanged.is_empty());
}

#[test]
fn push_without_board_stops_update() {
    let mut c = cfg();
    c.board_id = None;
    let (r, run) = one_step(
        &c,
        "both",
        ConflictChoice::Beads,
        Ok(issue("a", "Title", "open")),
        MondayLookup::Found(item("1", "Title", Some("Done"))),
    );
    assert_eq!(r.err(), Some(ConfigError::MissingBoardId));
    assert!(run.current().is_some());
    assert!(run.result().conflicts.is_empty());
}

#[test]
fn push_without_status_column_sends_nothing() {
    let mut c = cfg();
    c.status_column = None;
    // Without a status column no status is read from monday either: unchanged.
    let mut run = UpdateRun::start(mapping());
    let r = run.step(
        &c,
        &None,
        &bd(),
        "push",
        ConflictChoice::Beads,
        &Ok(issue("a", "Other", "open")),
        &MondayLookup::Found(item("1", "Title", Some("Done"))),
    );
    assert!(r.unwrap().monday.is_none());
}

#[test]
fn push_of_label_missing_from_board_sends_nothing() {
    let mut c = cfg();
    c.status_map.insert("open".to_string(), "Backlog".to_string());
    let (r, run) = one_step(
        &c,
        "push",
        ConflictChoice::Beads,
        Ok(issue("a", "Title", "open")),
        MondayLookup::Found(item("1", "Title", Some("Done"))),
    );
    assert!(r.unwrap().monday.is_none());
    assert_eq!(run.result().updated.len(), 1);
}

#[test]
fn update_never_links_anything_new() {
    let mut m = SyncMapping::empty();
    m.add(entry("a", "1"));
    m.add(entry("b", "2"));
    let mut run = UpdateRun::start(m);
    let c = cfg();
    run.step(&c, &sc(), &bd(), "both", ConflictChoice::Beads, &Ok(issue("a", "x", "open")), &MondayLookup::Found(item("1", "y", Some("Done")))).unwrap();
    run.step(&c, &sc(), &bd(), "both", ConflictChoice::Beads, &Err("gone".to_string()), &MondayLookup::Missing).unwrap();
    assert!(run.current().is_none());
    let (m, result) = run.finish();
    let ids: Vec<&str> = m.entries.iter().map(|e| e.beads_id.as_str()).collect();
    assert_eq!(ids, vec!["a", "b"]);
    assert_eq!(result.conflicts.len(), 1);
    assert_eq!(result.errors.len(), 1);
}

#[test]
fn conflict_detection() {
    let c = cfg();
    let found = MondayLookup::Found(item("1", "T", Some("Done")));
    assert!(is_status_conflict(&c, &sc(), "both", &Ok(issue("a", "T", "open")), &found));
    assert!(!is_status_conflict(&c, &sc(), "push", &Ok(issue("a", "T", "open")), &found));
    assert!(!is_status_conflict(&c, &sc(), "both", &Ok(issue("a", "T", "closed")), &found));
    assert!(!is_status_conflict(&c, &sc(), "both", &Err("x".to_string()), &found));
}

#[test]
fn status_report_counts() {
    let c = cfg();
    let mut r = StatusReport::new(4);
    r.record(&c, &sc(), &entry("a", "1"), &Ok(issue("a", "T", "open")), &MondayLookup::Found(item("1", "T", Some("To Do"))));
    r.record(&c, &sc(), &entry("b", "2"), &Ok(issue("b", "T", "open")), &MondayLookup::Found(item("2", "T", Some("Done"))));
    r.record(&c, &sc(), &entry("c", "3"), &Err("nope".to_string()), &MondayLookup::Missing);
    r.record(&c, &sc(), &entry("d", "4"), &Ok(issue("d", "T", "open")), &MondayLookup::Found(item("4", "T", None)));
    assert_eq!(r.total_linked, 4);
    assert_eq!(r.in_sync, 2);
    assert_eq!(r.drifted.len(), 1);
    assert_eq!(r.drifted[0].beads_value, "open");
    assert_eq!(r.drifted[0].monday_value, "closed");
    assert_eq!(r.drifted[0].field, "status");
    assert_eq!(r.errors[0].error, "beads issue not found: nope");
    assert_eq!(r.in_sync as usize + r.drifted.len() + r.errors.len(), r.total_linked);
}

#[test]
fn status_is_read_from_the_resolved_column_id() {
    // The configured reference is the title "Status"; the value is read from
    // the column whose id it resolved to.
    let c = cfg();
    let mut r = StatusReport::new(1);
    r.record(&c, &sc(), &entry("a", "1"), &Ok(issue("a", "T", "open")), &MondayLookup::Found(item("1", "T", Some("Done"))));
    assert_eq!(r.drifted.len(), 1);
    assert_eq!(r.drifted[0].monday_value, "closed");
}

#[test]
fn status_report_counts_every_link_once() {
    let c = cfg();
    let fetched = vec![
        (entry("a", "1"), Ok(issue("a", "T", "open")), MondayLookup::Found(item("1", "T", Some("To Do")))),
        (entry("b", "2"), Ok(issue("b", "T", "open")), MondayLookup::Found(item("2", "T", Some("Done")))),
        (entry("c", "3"), Err("nope".to_string()), MondayLookup::Missing),
    ];
    let r = mondaybot::sync::update::status_report(&c, &sc(), &fetched);
    assert_eq!(r.total_linked, 3);
    assert_eq!((r.in_sync, r.drifted.len(), r.errors.len()), (1, 1, 1));
}
