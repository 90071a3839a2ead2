use std::path::PathBuf;

use mondaybot::beads::{
    all_children, children_of_epic, default_issue_type, default_priority, is_hierarchical_child, BeadsCli,
    BeadsDependency, BeadsIssue,
};

fn issue(id: &str, deps: Option<Vec<&str>>) -> BeadsIssue {
    BeadsIssue {
        id: id.to_string(),
        title: format!("title {id}"),
        description: String::new(),
        status: "open".to_string(),
        priority: 2,
        issue_type: "task".to_string(),
        created_at: "c".to_string(),
        updated_at: "u".to_string(),
        closed_at: None,
        dependencies: deps.map(|ds| {
            ds.into_iter()
                .map(|d| BeadsDependency {
                    issue_id: id.to_string(),
                    depends_on_id: d.to_string(),
                    dep_type: "blocks".to_string(),
                    created_at: "c".to_string(),
                })
                .collect()
        }),
        dependency_count: 0,
    }
}

fn ids(v: &[BeadsIssue]) -> Vec<String> {
    v.iter().map(|i| i.id.clone()).collect()
}

#[test]
fn defaults() {
    assert_eq!(default_priority(), 2);
    assert_eq!(default_issue_type(), "task");
}

#[test]
fn hierarchical_child_ids() {
    assert!(is_hierarchical_child("epic-1.1", "epic-1"));
    assert!(is_hierarchical_child("epic-1.2.3", "epic-1"));
    assert!(!is_hierarchical_child("epic-1", "epic-1"));
    assert!(!is_hierarchical_child("epic-10", "epic-1"));
    assert!(!is_hierarchical_child("epic-1x1", "epic-1"));
    assert!(is_hierarchical_child("epic-1.", "epic-1"));
}

#[test]
fn children_by_dependency() {
    let issues = vec![
        issue("a", Some(vec!["epic"])),
        issue("b", None),
        issue("c", Some(vec!["x", "epic"])),
        issue("epic.1", None),
        issue("d", Some(vec![])),
    ];
    assert_eq!(ids(&children_of_epic(&issues, "epic")), vec!["a", "c"]);
}

#[test]
fn all_children_adds_hierarchical_ids() {
    let issues = vec![
        issue("a", Some(vec!["epic"])),
        issue("b", None),
        issue("epic.1", None),
        issue("c", Some(vec!["x", "epic"])),
    ];
    let all = all_children(&issues, "epic");
    assert_eq!(ids(&all), vec!["a", "epic.1", "c"]);
    for c in children_of_epic(&issues, "epic") {
        assert!(all.iter().any(|x| x.id == c.id));
    }
}

#[test]
fn children_are_full_copies() {
    let issues = vec![issue("a", Some(vec!["epic"]))];
    let kids = children_of_epic(&issues, "epic");
    assert_eq!(kids[0].title, "title a");
    assert_eq!(kids[0].dependencies.as_ref().unwrap()[0].depends_on_id, "epic");
}

fn cli() -> BeadsCli {
    BeadsCli::new(PathBuf::from("/tmp/somewhere"))
}

#[test]
fn working_dir_is_kept() {
    assert_eq!(cli().working_dir(), &PathBuf::from("/tmp/somewhere"));
}

#[test]
fn list_and_ready_commands() {
    assert_eq!(cli().list(None).args, vec!["list", "--json"]);
    assert_eq!(cli().list(Some("open")).args, vec!["list", "--json", "--status=open"]);
    assert_eq!(cli().ready().args, vec!["ready", "--json"]);
    assert_eq!(cli().check_available().args, vec!["--version"]);
}

#[test]
fn show_update_close_commands() {
    assert_eq!(cli().show("abc-1").args, vec!["show", "abc-1", "--json"]);
    assert_eq!(
        cli().update_status("abc-1", "in_progress").args,
        vec!["update", "abc-1", "--status", "in_progress", "--json"]
    );
    assert_eq!(cli().close("abc-1", None).args, vec!["close", "abc-1", "--json"]);
    assert_eq!(
        cli().close("abc-1", Some("done")).args,
        vec!["close", "abc-1", "--json", "--reason", "done"]
    );
    assert_eq!(cli().add_dependency("a", "b").args, vec!["dep", "add", "a", "b"]);
}

#[test]
fn create_commands() {
    assert_eq!(
        cli().create("My task", "task", 2, None).args,
        vec!["create", "My task", "-t", "task", "-p", "2", "--json"]
    );
    assert_eq!(
        cli().create("Epic", "epic", 10, Some("p-1")).args,
        vec!["create", "Epic", "-t", "epic", "-p", "10", "--json", "--parent", "p-1"]
    );
    assert_eq!(cli().create("x", "bug", 255, None).args[5], "255");
}

#[test]
fn issue_clone_is_equal() {
    let a = issue("a", Some(vec!["e"]));
    let b = a.clone();
    assert_eq!(b.id, a.id);
    assert_eq!(b.dependencies.unwrap().len(), 1);
}

#[test]
fn children_only_by_parent_or_blocks_dependency() {
    let mut related = issue("x-2", Some(vec!["ep-1"]));
    related.dependencies.as_mut().unwrap()[0].dep_type = "related".to_string();
    let mut parented = issue("x-3", Some(vec!["ep-1"]));
    parented.dependencies.as_mut().unwrap()[0].dep_type = "parent-child".to_string();
    let issues = vec![related, parented, issue("x-4", Some(vec!["ep-1"]))];
    assert_eq!(ids(&children_of_epic(&issues, "ep-1")), vec!["x-3", "x-4"]);
    assert_eq!(ids(&all_children(&issues, "ep-1")), vec!["x-3", "x-4"]);
}
