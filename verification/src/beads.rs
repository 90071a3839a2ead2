//! Beads issues and the `bd` command lines that read and change them.
//!
//! The library decides which `bd` invocation each operation needs; running
//! the process and reading its JSON output happens outside the library.

use vstd::prelude::*;
use crate::text::{decimal, has_prefix, join2, starts_with, u64_to_decimal};
use crate::sync::mapping::clone_opt_string;

verus! {

#[verifier::external_type_specification]
#[verifier::external_body]
pub struct ExPathBuf(std::path::PathBuf);

/// A dependency edge reported by `bd`.
#[derive(Debug)]
pub struct BeadsDependency {
    pub issue_id: String,
    pub depends_on_id: String,
    pub dep_type: String,
    pub created_at: String,
}

impl Clone for BeadsDependency {
    fn clone(&self) -> (r: Self)
        ensures
            r == *self,
    {
        BeadsDependency {
            issue_id: self.issue_id.clone(),
            depends_on_id: self.depends_on_id.clone(),
            dep_type: self.dep_type.clone(),
            created_at: self.created_at.clone(),
        }
    }
}

/// An issue as `bd ... --json` reports it.
#[derive(Debug)]
pub struct BeadsIssue {
    pub id: String,
    pub title: String,
    pub description: String,
    pub status: String,
    pub priority: u8,
    pub issue_type: String,
    pub created_at: String,
    pub updated_at: String,
    pub closed_at: Option<String>,
    pub dependencies: Option<Vec<BeadsDependency>>,
    pub dependency_count: u64,
}

/// The value of an issue, with its dependency list as a sequence.
pub struct IssueView {
    pub id: Seq<char>,
    pub title: Seq<char>,
    pub description: Seq<char>,
    pub status: Seq<char>,
    pub priority: u8,
    pub issue_type: Seq<char>,
    pub created_at: Seq<char>,
    pub updated_at: Seq<char>,
    pub closed_at: Option<Seq<char>>,
    pub dependencies: Option<Seq<BeadsDependency>>,
    pub dependency_count: u64,
}

impl View for BeadsIssue {
    type V = IssueView;

    open spec fn view(&self) -> IssueView {
        IssueView {
            id: self.id@,
            title: self.title@,
            description: self.description@,
            status: self.status@,
            priority: self.priority,
            issue_type: self.issue_type@,
            created_at: self.created_at@,
            updated_at: self.updated_at@,
            closed_at: match self.closed_at {
                Some(s) => Some(s@),
                None => None,
            },
            dependencies: match self.dependencies {
                Some(d) => Some(d@),
                None => None,
            },
            dependency_count: self.dependency_count,
        }
    }
}

pub fn clone_dependencies(v: &Vec<BeadsDependency>) -> (r: Vec<BeadsDependency>)
    ensures
        r@ == v@,
{
    let mut out: Vec<BeadsDependency> = Vec::new();
    let n = v.len();
    for i in 0..n
        invariant
            n == v@.len(),
            out@ == v@.subrange(0, i as int),
    {
        out.push(v[i].clone());
        assert(out@ =~= v@.subrange(0, i + 1));
    }
    assert(v@.subrange(0, n as int) =~= v@);
    out
}

impl Clone for BeadsIssue {
    fn clone(&self) -> (r: Self)
        ensures
            r@ == self@,
    {
        let dependencies = match &self.dependencies {
            Some(d) => Some(clone_dependencies(d)),
            None => None,
        };
        BeadsIssue {
            id: self.id.clone(),
            title: self.title.clone(),
            description: self.description.clone(),
            status: self.status.clone(),
            priority: self.priority,
            issue_type: self.issue_type.clone(),
            created_at: self.created_at.clone(),
            updated_at: self.updated_at.clone(),
            closed_at: clone_opt_string(&self.closed_at),
            dependencies,
            dependency_count: self.dependency_count,
        }
    }
}

/// The priority `bd` gives an issue when its output names none.
pub fn default_priority() -> (r: u8)
    ensures
        r == 2,
{
    2
}

/// The issue type `bd` gives an issue when its output names none.
pub fn default_issue_type() -> (r: String)
    ensures
        r@ == "task"@,
{
    String::from_str("task")
}

/// The views of a list of issues.
pub open spec fn issue_views(s: Seq<BeadsIssue>) -> Seq<IssueView> {
    s.map_values(|i: BeadsIssue| i@)
}

/// The dependency makes its issue a child of `epic_id`: it points at the
/// epic and is either the parent link that `bd create --parent` records (type
/// "parent-child") or a "blocks" dependency.
pub open spec fn is_child_link(d: BeadsDependency, epic_id: Seq<char>) -> bool {
    d.depends_on_id@ == epic_id && (d.dep_type@ == "blocks"@ || d.dep_type@ == "parent-child"@)
}

/// Some dependency of the issue makes it a child of `epic_id`.
pub open spec fn depends_on_epic(i: IssueView, epic_id: Seq<char>) -> bool {
    match i.dependencies {
        Some(d) => exists|k: int| 0 <= k < d.len() && is_child_link(#[trigger] d[k], epic_id),
        None => false,
    }
}

/// Whether the dependency makes its issue a child of `epic_id`.
pub fn dependency_is_child_link(d: &BeadsDependency, epic_id: &str) -> (r: bool)
    ensures
        r == is_child_link(*d, epic_id@),
{
    crate::text::text_eq(d.depends_on_id.as_str(), epic_id) && (crate::text::text_eq(d.dep_type.as_str(), "blocks")
        || crate::text::text_eq(d.dep_type.as_str(), "parent-child"))
}

/// The issue id is `<epic_id>.<something>`.
pub open spec fn is_hierarchical_child_of(issue_id: Seq<char>, epic_id: Seq<char>) -> bool {
    starts_with(issue_id, epic_id.push('.'))
}

/// Issues that are children of the epic by a dependency.
pub open spec fn dependent_of(epic_id: Seq<char>) -> spec_fn(IssueView) -> bool {
    |i: IssueView| depends_on_epic(i, epic_id)
}

/// Issues that are children of the epic by a dependency or carry a
/// hierarchical id under it.
pub open spec fn child_of(epic_id: Seq<char>) -> spec_fn(IssueView) -> bool {
    |i: IssueView| is_hierarchical_child_of(i.id, epic_id) || depends_on_epic(i, epic_id)
}

/// Whether some dependency of the issue makes it a child of `epic_id`.
pub fn issue_depends_on(issue: &BeadsIssue, epic_id: &str) -> (r: bool)
    ensures
        r == depends_on_epic(issue@, epic_id@),
{
    match &issue.dependencies {
        Some(deps) => {
            let n = deps.len();
            for k in 0..n
                invariant
                    n == deps@.len(),
                    issue@.dependencies == Some(deps@),
                    forall|j: int| 0 <= j < k ==> !is_child_link(#[trigger] deps@[j], epic_id@),
            {
                if dependency_is_child_link(&deps[k], epic_id) {
                    let ghost d = issue@.dependencies->0;
                    assert(d == deps@);
                    assert(is_child_link(d[k as int], epic_id@));
                    assert(depends_on_epic(issue@, epic_id@));
                    return true;
                }
            }
            false
        },
        None => false,
    }
}

/// Determine which beads issues are children of a given epic: those parented
/// to it or with a "blocks" dependency on it, in their original order.
pub fn children_of_epic(issues: &[BeadsIssue], epic_id: &str) -> (r: Vec<BeadsIssue>)
    ensures
        issue_views(r@) == issue_views(issues@).filter(dependent_of(epic_id@)),
{
    let mut out: Vec<BeadsIssue> = Vec::new();
    let n = issues.len();
    let ghost views = issue_views(issues@);
    for i in 0..n
        invariant
            n == issues@.len(),
            views == issue_views(issues@),
            issue_views(out@) == views.subrange(0, i as int).filter(dependent_of(epic_id@)),
    {
        reveal_with_fuel(Seq::<_>::filter, 1);
        assert(views.subrange(0, i + 1).drop_last() =~= views.subrange(0, i as int));
        let ghost before = out@;
        if issue_depends_on(&issues[i], epic_id) {
            out.push(issues[i].clone());
            assert(issue_views(out@) =~= issue_views(before).push(issues@[i as int]@));
        }
    }
    assert(views.subrange(0, n as int) =~= views);
    out
}

/// Check if an issue ID looks like a hierarchical child (e.g. "epic-id.1").
pub fn is_hierarchical_child(issue_id: &str, epic_id: &str) -> (r: bool)
    ensures
        r == is_hierarchical_child_of(issue_id@, epic_id@),
{
    let prefix = join2(epic_id, ".");
    proof {
        reveal_strlit(".");
        assert(prefix@ =~= epic_id@.push('.'));
    }
    has_prefix(issue_id, prefix.as_str())
}

/// Get children including hierarchical IDs, in their original order.
pub fn all_children(issues: &[BeadsIssue], epic_id: &str) -> (r: Vec<BeadsIssue>)
    ensures
        issue_views(r@) == issue_views(issues@).filter(child_of(epic_id@)),
{
    let mut out: Vec<BeadsIssue> = Vec::new();
    let n = issues.len();
    let ghost views = issue_views(issues@);
    for i in 0..n
        invariant
            n == issues@.len(),
            views == issue_views(issues@),
            issue_views(out@) == views.subrange(0, i as int).filter(child_of(epic_id@)),
    {
        reveal_with_fuel(Seq::<_>::filter, 1);
        assert(views.subrange(0, i + 1).drop_last() =~= views.subrange(0, i as int));
        let ghost before = out@;
        if is_hierarchical_child(issues[i].id.as_str(), epic_id) || issue_depends_on(&issues[i], epic_id) {
            out.push(issues[i].clone());
            assert(issue_views(out@) =~= issue_views(before).push(issues@[i as int]@));
        }
    }
    assert(views.subrange(0, n as int) =~= views);
    out
}

/// Every child found through a dependency is also among all children.
pub proof fn lemma_children_within_all_children(issues: Seq<BeadsIssue>, epic_id: Seq<char>)
    ensures
        forall|v: IssueView|
            issue_views(issues).filter(dependent_of(epic_id)).contains(v) ==> issue_views(
                issues,
            ).filter(child_of(epic_id)).contains(v),
{
    let views = issue_views(issues);
    assert forall|v: IssueView|
        views.filter(dependent_of(epic_id)).contains(v) implies views.filter(
            child_of(epic_id),
        ).contains(v) by {
        views.lemma_filter_contains_rev(dependent_of(epic_id), v);
        let k = choose|k: int| 0 <= k < views.len() && views[k] == v;
        views.lemma_filter_contains(child_of(epic_id), k);
    }
}

/// One `bd` invocation: its arguments, to be run in the tracker's directory.
#[derive(Debug)]
pub struct BdCommand {
    pub args: Vec<String>,
}

/// The texts of a list of arguments.
pub open spec fn arg_texts(args: Seq<String>) -> Seq<Seq<char>> {
    args.map_values(|a: String| a@)
}

impl BdCommand {
    pub open spec fn texts(&self) -> Seq<Seq<char>> {
        arg_texts(self.args@)
    }
}

fn push_arg(args: &mut Vec<String>, a: &str)
    ensures
        arg_texts(final(args)@) == arg_texts(old(args)@).push(a@),
{
    let ghost before = args@;
    args.push(String::from_str(a));
    assert(arg_texts(args@) =~= arg_texts(before).push(a@));
}

/// Runs `bd` commands in one working directory.
pub struct BeadsCli {
    working_dir: std::path::PathBuf,
}

impl BeadsCli {
    pub fn new(working_dir: std::path::PathBuf) -> (r: Self)
        ensures
            r.dir() == working_dir,
    {
        BeadsCli { working_dir }
    }

    pub closed spec fn dir(&self) -> std::path::PathBuf {
        self.working_dir
    }

    /// The directory the commands run in.
    pub fn working_dir(&self) -> (r: &std::path::PathBuf)
        ensures
            *r == self.dir(),
    {
        &self.working_dir
    }

    /// `bd --version`.
    pub fn check_available(&self) -> (c: BdCommand)
        ensures
            c.texts() == seq!["--version"@],
    {
        let mut args: Vec<String> = Vec::new();
        push_arg(&mut args, "--version");
        BdCommand { args }
    }

    /// `bd list --json`, with `--status=<status>` when a status is given.
    pub fn list(&self, status: Option<&str>) -> (c: BdCommand)
        ensures
            c.texts() == seq!["list"@, "--json"@] + match status {
                Some(s) => seq!["--status="@ + s@],
                None => Seq::<Seq<char>>::empty(),
            },
    {
        let mut args: Vec<String> = Vec::new();
        push_arg(&mut args, "list");
        push_arg(&mut args, "--json");
        if let Some(s) = status {
            let flag = join2("--status=", s);
            push_arg(&mut args, flag.as_str());
        }
        let c = BdCommand { args };
        assert(c.texts() =~= seq!["list"@, "--json"@] + match status {
            Some(s) => seq!["--status="@ + s@],
            None => Seq::<Seq<char>>::empty(),
        });
        c
    }

    /// `bd show <id> --json`.
    pub fn show(&self, issue_id: &str) -> (c: BdCommand)
        ensures
            c.texts() == seq!["show"@, issue_id@, "--json"@],
    {
        let mut args: Vec<String> = Vec::new();
        push_arg(&mut args, "show");
        push_arg(&mut args, issue_id);
        push_arg(&mut args, "--json");
        let c = BdCommand { args };
        assert(c.texts() =~= seq!["show"@, issue_id@, "--json"@]);
        c
    }

    /// `bd ready --json`.
    pub fn ready(&self) -> (c: BdCommand)
        ensures
            c.texts() == seq!["ready"@, "--json"@],
    {
        let mut args: Vec<String> = Vec::new();
        push_arg(&mut args, "ready");
        push_arg(&mut args, "--json");
        let c = BdCommand { args };
        assert(c.texts() =~= seq!["ready"@, "--json"@]);
        c
    }

    /// `bd create <title> -t <type> -p <priority> --json`, with
    /// `--parent <id>` when a parent is given.
    pub fn create(&self, title: &str, issue_type: &str, priority: u8, parent: Option<&str>) -> (c:
        BdCommand)
        ensures
            c.texts() == seq![
                "create"@,
                title@,
                "-t"@,
                issue_type@,
                "-p"@,
                decimal(priority as nat),
                "--json"@,
            ] + match parent {
                Some(p) => seq!["--parent"@, p@],
                None => Seq::<Seq<char>>::empty(),
            },
    {
        let mut args: Vec<String> = Vec::new();
        push_arg(&mut args, "create");
        push_arg(&mut args, title);
        push_arg(&mut args, "-t");
        push_arg(&mut args, issue_type);
        push_arg(&mut args, "-p");
        let p_str = u64_to_decimal(priority as u64);
        push_arg(&mut args, p_str.as_str());
        push_arg(&mut args, "--json");
        if let Some(parent_id) = parent {
            push_arg(&mut args, "--parent");
            push_arg(&mut args, parent_id);
        }
        let c = BdCommand { args };
        assert(c.texts() =~= seq![
            "create"@,
            title@,
            "-t"@,
            issue_type@,
            "-p"@,
            decimal(priority as nat),
            "--json"@,
        ] + match parent {
            Some(p) => seq!["--parent"@, p@],
            None => Seq::<Seq<char>>::empty(),
        });
        c
    }

    /// `bd update <id> --status <status> --json`.
    pub fn update_status(&self, issue_id: &str, status: &str) -> (c: BdCommand)
        ensures
            c.texts() == seq!["update"@, issue_id@, "--status"@, status@, "--json"@],
    {
        let mut args: Vec<String> = Vec::new();
        push_arg(&mut args, "update");
        push_arg(&mut args, issue_id);
        push_arg(&mut args, "--status");
        push_arg(&mut args, status);
        push_arg(&mut args, "--json");
        let c = BdCommand { args };
        assert(c.texts() =~= seq!["update"@, issue_id@, "--status"@, status@, "--json"@]);
        c
    }

    /// `bd close <id> --json`, with `--reason <reason>` when one is given.
    pub fn close(&self, issue_id: &str, reason: Option<&str>) -> (c: BdCommand)
        ensures
            c.texts() == seq!["close"@, issue_id@, "--json"@] + match reason {
                Some(r) => seq!["--reason"@, r@],
                None => Seq::<Seq<char>>::empty(),
            },
    {
        let mut args: Vec<String> = Vec::new();
        push_arg(&mut args, "close");
        push_arg(&mut args, issue_id);
        push_arg(&mut args, "--json");
        if let Some(r) = reason {
            push_arg(&mut args, "--reason");
            push_arg(&mut args, r);
        }
        let c = BdCommand { args };
        assert(c.texts() =~= seq!["close"@, issue_id@, "--json"@] + match reason {
            Some(r) => seq!["--reason"@, r@],
            None => Seq::<Seq<char>>::empty(),
        });
        c
    }

    /// `bd dep add <id> <depends_on_id>`.
    pub fn add_dependency(&self, issue_id: &str, depends_on_id: &str) -> (c: BdCommand)
        ensures
            c.texts() == seq!["dep"@, "add"@, issue_id@, depends_on_id@],
    {
        let mut args: Vec<String> = Vec::new();
        push_arg(&mut args, "dep");
        push_arg(&mut args, "add");
        push_arg(&mut args, issue_id);
        push_arg(&mut args, depends_on_id);
        let c = BdCommand { args };
        assert(c.texts() =~= seq!["dep"@, "add"@, issue_id@, depends_on_id@]);
        c
    }
}

} // verus!
