use mondaybot::api::types::Item;
use mondaybot::beads::{BeadsCli, BeadsDependency, BeadsIssue};
use mondaybot::sync::mapping::{MappingEntry, SyncMapping};
use mondaybot::sync::pull::{pull_parent_targets, pull_request, subitems_to_pull, PullAction, PullAllNext, PullAllRun, PullRequest};
use mondaybot::sync::push::{
    epic_children_to_push, push_epic_targets, push_request, ChildPush, LinkedPush, PushAction, PushAllNext, PushAllRun, PushError,
    PushPlan, PushRequest,
};

fn issue(id: &str, kind: &str, deps: Vec<(&str, &str)>) -> BeadsIssue {
    BeadsIssue {
        id: id.to_string(),
        title: format!("Title {id}"),
        description: String::new(),
        status: "open".to_string(),
        priority: 2,
        issue_type: kind.to_string(),
        created_at: "c".to_string(),
        updated_at: "u".to_string(),
        closed_at: None,
        dependencies: if deps.is_empty() {
            None
        } else {
            Some(
                deps.into_iter()
                    .map(|(d, t)| BeadsDependency {
                        issue_id: id.to_string(),
                        depends_on_id: d.to_string(),
                        dep_type: t.to_string(),
                        created_at: "c".to_string(),
                    })
                    .collect(),
            )
        },
        dependency_count: 0,
    }
}

fn entry(beads: &str, monday: &str) -> MappingEntry {
    MappingEntry {
        beads_id: beads.to_string(),
        monday_item_id: monday.to_string(),
        is_subitem: false,
        parent_monday_id: None,
        last_synced: "then".to_string(),
    }
}

fn item(id: &str, subs: Vec<&str>) -> Item {
    Item {
        id: id.to_string(),
        name: format!("item {id}"),
        group: None,
        column_values: vec![],
        subitems: if subs.is_empty() { None } else { Some(subs.into_iter().map(|s| item(s, vec![])).collect()) },
        board: None,
    }
}

fn ids(v: &[BeadsIssue]) -> Vec<String> {
    v.iter().map(|i| i.id.clone()).collect()
}

#[test]
fn epic_targets_are_the_epic_then_its_children() {
    let epic = issue("ep", "epic", vec![]);
    let all = vec![
        issue("a", "task", vec![("ep", "blocks")]),
        issue("b", "task", vec![("ep", "related")]),
        issue("ep.1", "task", vec![]),
        issue("c", "task", vec![("ep", "parent-child")]),
    ];
    let t = push_epic_targets("ep", &epic, &all).unwrap();
    assert_eq!(ids(&t), vec!["ep", "a", "ep.1", "c"]);
    assert_eq!(
        push_epic_targets("ep", &issue("ep", "task", vec![]), &all).err(),
        Some(PushError::NotAnEpic { epic_id: "ep".to_string(), issue_type: "task".to_string() })
    );
}

#[test]
fn epic_children_to_push_leave_out_linked_ones() {
    let mut m = SyncMapping::empty();
    m.add(entry("a", "1"));
    let all = vec![issue("a", "task", vec![("ep", "blocks")]), issue("ep.1", "task", vec![])];
    let candidates = vec![issue("x", "task", vec![("ep", "blocks")]), issue("y", "task", vec![("ep", "related")])];
    assert_eq!(ids(&epic_children_to_push(&m, "ep", &all, &candidates)), vec!["ep.1", "x"]);
}

#[test]
fn parent_targets_pull_the_parent_as_epic_then_subitems_as_tasks() {
    let t = pull_parent_targets(&item("p", vec!["s1", "s2"]));
    assert_eq!(t.len(), 3);
    assert_eq!((t[0].sub, t[0].issue_type.as_str(), t[0].under_parent), (None, "epic", false));
    assert_eq!((t[1].sub, t[1].issue_type.as_str(), t[1].under_parent), (Some(0), "task", true));
    assert_eq!((t[2].sub, t[2].issue_type.as_str(), t[2].under_parent), (Some(1), "task", true));
    assert_eq!(pull_parent_targets(&item("p", vec![])).len(), 1);
}

#[test]
fn unlinked_subitems_are_discovered() {
    let mut m = SyncMapping::empty();
    m.add(entry("b-1", "s1"));
    assert_eq!(subitems_to_pull(&m, &item("p", vec!["s1", "s2", "s3"])), vec![1, 2]);
    assert!(subitems_to_pull(&m, &item("p", vec![])).is_empty());
}

fn pull_action(b: &str, m: &str) -> PullAction {
    PullAction { beads_id: b.to_string(), monday_item_id: m.to_string(), name: "n".to_string() }
}

#[test]
fn pull_all_run_pulls_links_then_new_subitems() {
    let bd = BeadsCli::new(std::path::PathBuf::from("."));
    let mut m = SyncMapping::empty();
    m.add(entry("ep", "p"));
    m.add(entry("t", "q"));
    m.add(entry("s1-b", "s1"));
    let mut run = PullAllRun::start(&m);
    match run.current() {
        PullAllNext::Entry { monday_item_id } => assert_eq!(monday_item_id, "p"),
        other => panic!("unexpected {other:?}"),
    }
    let req = run.entry_fetched(&m, &bd, Some(item("p", vec!["s1", "s2"]))).unwrap();
    assert!(matches!(req, PullRequest::Refresh { ref existing } if existing.beads_id == "ep"));
    run.entry_pulled(&m, Ok(pull_action("ep", "p")));
    match run.current() {
        PullAllNext::Sub { index, parent_beads_id } => assert_eq!((index, parent_beads_id.as_str()), (1, "ep")),
        other => panic!("unexpected {other:?}"),
    }
    match run.sub_request(&m, &bd) {
        Some(PullRequest::Create { command }) => {
            assert_eq!(command.args, vec!["create", "item s2", "-t", "task", "-p", "2", "--json", "--parent", "ep"]);
        }
        other => panic!("unexpected {other:?}"),
    }
    run.sub_pulled(Ok(pull_action("new", "s2")));
    assert!(matches!(run.current(), PullAllNext::Entry { .. }));
    assert!(run.entry_fetched(&m, &bd, None).is_none());
    assert!(matches!(run.current(), PullAllNext::Entry { .. }));
    run.entry_fetched(&m, &bd, Some(item("s1", vec![]))).unwrap();
    run.entry_pulled(&m, Err("bd failed".to_string()));
    assert!(matches!(run.current(), PullAllNext::Done));
    let r = run.finish();
    assert_eq!(r.updated.len(), 1);
    assert_eq!(r.created.len(), 1);
    assert_eq!(r.created[0].monday_item_id, "s2");
}

#[test]
fn pull_all_run_skips_a_subitem_linked_meanwhile() {
    let bd = BeadsCli::new(std::path::PathBuf::from("."));
    let mut m = SyncMapping::empty();
    m.add(entry("ep", "p"));
    let mut run = PullAllRun::start(&m);
    run.entry_fetched(&m, &bd, Some(item("p", vec!["s1", "s1"]))).unwrap();
    run.entry_pulled(&m, Ok(pull_action("ep", "p")));
    assert!(run.sub_request(&m, &bd).is_some());
    m.add(entry("new", "s1"));
    run.sub_pulled(Ok(pull_action("new", "s1")));
    assert!(run.sub_request(&m, &bd).is_none());
    run.sub_pulled(Err("already linked".to_string()));
    assert!(matches!(run.current(), PullAllNext::Done));
    assert_eq!(run.finish().created.len(), 1);
}

fn push_action(b: &str, m: &str) -> PushAction {
    PushAction { beads_id: b.to_string(), monday_item_id: m.to_string(), title: "t".to_string() }
}

#[test]
fn push_all_run_pushes_links_then_creates_epic_children() {
    let mut m = SyncMapping::empty();
    m.add(entry("ep", "100"));
    m.add(entry("t", "200"));
    let all = vec![
        issue("ep", "epic", vec![]),
        issue("t", "task", vec![]),
        issue("c", "task", vec![("ep", "blocks")]),
    ];
    let mut run = PushAllRun::start(&m);
    assert!(matches!(run.current(), PushAllNext::Linked { ref entry } if entry.beads_id == "ep"));
    run.linked_pushed(LinkedPush::Pushed(push_action("ep", "100")));
    assert!(matches!(run.current(), PushAllNext::Linked { ref entry } if entry.beads_id == "t"));
    run.linked_pushed(LinkedPush::NotShown("no such issue".to_string()));
    assert!(matches!(run.current(), PushAllNext::Scan { ref entry } if entry.beads_id == "ep"));
    run.scanned(&m, &Ok(issue("ep", "epic", vec![])), &all, &[]);
    match run.current() {
        PushAllNext::Child { issue, parent_monday_id } => {
            assert_eq!((issue.id.as_str(), parent_monday_id.as_str()), ("c", "100"));
        }
        other => panic!("unexpected {other:?}"),
    }
    assert!(!run.child_is_linked(&m));
    run.child_pushed(ChildPush::Failed("HTTP 500".to_string()));
    assert!(matches!(run.current(), PushAllNext::Scan { ref entry } if entry.beads_id == "t"));
    run.scanned(&m, &Ok(issue("t", "task", vec![])), &all, &[]);
    assert!(matches!(run.current(), PushAllNext::Done));
    let r = run.finish();
    assert_eq!(r.updated.len(), 1);
    assert_eq!(r.created.len(), 0);
    assert_eq!(r.skipped.len(), 2);
    assert_eq!(r.skipped[0].title, "beads error: no such issue");
    assert_eq!((r.skipped[1].beads_id.as_str(), r.skipped[1].monday_item_id.as_str()), ("c", "100"));
    assert_eq!(r.skipped[1].title, "error: HTTP 500");
}

#[test]
fn push_request_updates_links_and_creates_otherwise() {
    let linked = PushPlan { board_id: 5, status_label: "To Do".to_string(), existing: Some(entry("a", "100")) };
    assert!(matches!(push_request(&linked, Some("9")), PushRequest::Update { ref item_id, is_subitem: false } if item_id == "100"));
    let new = PushPlan { board_id: 5, status_label: "To Do".to_string(), existing: None };
    assert!(matches!(push_request(&new, Some("9")), PushRequest::CreateSubitem { ref parent_id } if parent_id == "9"));
    assert!(matches!(push_request(&new, None), PushRequest::CreateItem { board_id: 5 }));
}

#[test]
fn pull_request_refreshes_links_and_creates_otherwise() {
    let bd = BeadsCli::new(std::path::PathBuf::from("."));
    let mut m = SyncMapping::empty();
    m.add(entry("b-1", "p"));
    assert!(matches!(pull_request(&m, &bd, &item("p", vec![]), "task", None), PullRequest::Refresh { ref existing } if existing.beads_id == "b-1"));
    match pull_request(&m, &bd, &item("q", vec![]), "task", Some("ep")) {
        PullRequest::Create { command } => {
            assert_eq!(command.args, vec!["create", "item q", "-t", "task", "-p", "2", "--json", "--parent", "ep"]);
        }
        other => panic!("unexpected {other:?}"),
    }
}

#[test]
fn not_found_message() {
    assert_eq!(mondaybot::sync::pull::item_not_found("42"), "monday item 42 not found");
}

#[test]
fn push_all_run_files_a_created_child_as_that_child() {
    let mut m = SyncMapping::empty();
    m.add(entry("ep", "100"));
    let all = vec![issue("ep", "epic", vec![]), issue("c", "task", vec![("ep", "blocks")])];
    let mut run = PushAllRun::start(&m);
    run.linked_pushed(LinkedPush::Pushed(push_action("ep", "100")));
    run.scanned(&m, &Ok(issue("ep", "epic", vec![])), &all, &[]);
    run.child_pushed(ChildPush::Created("300".to_string()));
    assert!(matches!(run.current(), PushAllNext::Done));
    let r = run.finish();
    assert_eq!(r.created.len(), 1);
    assert_eq!((r.created[0].beads_id.as_str(), r.created[0].monday_item_id.as_str(), r.created[0].title.as_str()), ("c", "300", "Title c"));
}
