//! `sync push`: beads -> monday.com. A linked issue updates its item; an
//! unlinked one creates an item (or a sub-item under a linked parent) and is
//! linked to it.
//!
//! The monday.com queries run outside the library; the functions here decide
//! where a push goes, what column values it sends, and what it records.

use vstd::prelude::*;
use crate::api::types::{ItemBoardResponse};
use crate::beads::{
    all_children, child_of, children_of_epic, dependency_is_child_link, dependent_of, is_child_link, issue_views,
    BeadsDependency, BeadsIssue, IssueView,
};
use crate::config::{label_for_status, Config, ConfigError};
use crate::search::{first_match, lemma_first_match_found, lemma_first_match_none};
use crate::sync::columns::{index_for_label, status_index_for_label, LabelIndexMap};
use crate::sync::mapping::{clone_entries, clone_opt_string, entry_for_beads, link_entry, upserted, MappingEntry, SyncMapping};
use crate::sync::update::appended;
use crate::sync::values::{with_setting, ColumnSetting, ColumnValues, SettingView};
use crate::text::{join2, opt_text, parse_u64, parsed_u64, text_eq, trim, unicode_trimmed};

verus! {

#[derive(Debug)]
pub struct PushAction {
    pub beads_id: String,
    pub monday_item_id: String,
    pub title: String,
}

#[derive(Debug)]
pub struct PushResult {
    pub created: Vec<PushAction>,
    pub updated: Vec<PushAction>,
    pub skipped: Vec<PushAction>,
}

impl PushResult {
    pub fn new() -> (r: Self)
        ensures
            r.created@.len() == 0,
            r.updated@.len() == 0,
            r.skipped@.len() == 0,
    {
        PushResult { created: Vec::new(), updated: Vec::new(), skipped: Vec::new() }
    }

    /// Files a push under `updated` when the issue was linked before it, under
    /// `created` otherwise.
    pub fn record(&mut self, was_linked: bool, action: PushAction)
        ensures
            was_linked ==> final(self).updated@ == old(self).updated@.push(action)
                && final(self).created == old(self).created,
            !was_linked ==> final(self).created@ == old(self).created@.push(action)
                && final(self).updated == old(self).updated,
            final(self).skipped == old(self).skipped,
    {
        if was_linked {
            self.updated.push(action);
        } else {
            self.created.push(action);
        }
    }

    /// Files an issue that could not be pushed, with the reason as its title.
    pub fn skip(&mut self, beads_id: &str, monday_item_id: &str, reason_prefix: &str, error: &str)
        ensures
            appended(final(self).skipped@, old(self).skipped@),
            final(self).skipped@.last().beads_id@ == beads_id@,
            final(self).skipped@.last().monday_item_id@ == monday_item_id@,
            final(self).skipped@.last().title@ == reason_prefix@ + error@,
            final(self).created == old(self).created,
            final(self).updated == old(self).updated,
    {
        let title = join2(reason_prefix, error);
        self.skipped.push(
            PushAction {
                beads_id: String::from_str(beads_id),
                monday_item_id: String::from_str(monday_item_id),
                title,
            },
        );
    }
}

/// Why a push was refused before anything was sent.
#[derive(Debug, PartialEq, Eq)]
pub enum PushError {
    Config(ConfigError),
    /// The issue asked to be pushed as an epic has another type.
    NotAnEpic { epic_id: String, issue_type: String },
}

/// Where a push goes.
#[derive(Debug)]
pub struct PushPlan {
    /// The configured board.
    pub board_id: u64,
    /// The monday.com label for the issue's status.
    pub status_label: String,
    /// The link to update, when the issue is linked.
    pub existing: Option<MappingEntry>,
}

/// Plans the push of one issue: it needs a configured board; the link to
/// update is the one given, else the registry's link for the issue id.
pub fn plan_push(
    cfg: &Config,
    mapping: &SyncMapping,
    issue: &BeadsIssue,
    existing_entry: Option<&MappingEntry>,
) -> (r: Result<PushPlan, ConfigError>)
    ensures
        cfg.board_id is None ==> r == Err::<PushPlan, ConfigError>(ConfigError::MissingBoardId),
        cfg.board_id matches Some(b) ==> r is Ok && {
            let p = r->Ok_0;
            &&& p.board_id == b
            &&& p.status_label@ == label_for_status(cfg.status_map@, issue.status@)
            &&& p.existing == match existing_entry {
                Some(e) => Some(*e),
                None => entry_for_beads(mapping.entries@, issue.id@),
            }
        },
{
    let board_id = match cfg.require_board_id() {
        Ok(b) => b,
        Err(e) => {
            return Err(e);
        },
    };
    let status_label = cfg.status_label(issue.status.as_str());
    let existing = match existing_entry {
        Some(e) => Some(e.clone()),
        None => match mapping.find_by_beads_id(issue.id.as_str()) {
            Some(e) => Some(e.clone()),
            None => None,
        },
    };
    Ok(PushPlan { board_id, status_label, existing })
}

/// The monday.com request that a push makes.
#[derive(Debug)]
pub enum PushRequest {
    /// Update the linked item (found on its own board when it is a
    /// sub-item); nothing is created.
    Update { item_id: String, is_subitem: bool },
    /// Create a sub-item under the parent item.
    CreateSubitem { parent_id: String },
    /// Create an item on the board.
    CreateItem { board_id: u64 },
}

/// What a planned push sends: an update of the link's item when the issue
/// is linked, else one create, as a sub-item under the parent item when
/// there is one and as an item on the board otherwise.
pub fn push_request(plan: &PushPlan, parent_monday_id: Option<&str>) -> (r: PushRequest)
    ensures
        match plan.existing {
            Some(e) => r matches PushRequest::Update { item_id, is_subitem } && item_id@ == e.monday_item_id@
                && is_subitem == e.is_subitem,
            None => match parent_monday_id {
                Some(p) => r matches PushRequest::CreateSubitem { parent_id } && parent_id@ == p@,
                None => r matches PushRequest::CreateItem { board_id } && board_id == plan.board_id,
            },
        },
{
    match &plan.existing {
        Some(e) => PushRequest::Update { item_id: e.monday_item_id.clone(), is_subitem: e.is_subitem },
        None => match parent_monday_id {
            Some(p) => PushRequest::CreateSubitem { parent_id: String::from_str(p) },
            None => PushRequest::CreateItem { board_id: plan.board_id },
        },
    }
}

/// The board an item lives on, as the item-board query reports it: the
/// first item's board id, when it parses as a number.
pub open spec fn reported_board(resp: ItemBoardResponse) -> Option<u64> {
    if resp.items@.len() > 0 {
        match resp.items@[0].board {
            Some(b) => parsed_u64(b.id@),
            None => None,
        }
    } else {
        None
    }
}

/// The board id that the item-board query reports, if any.
pub fn item_board_id(resp: &ItemBoardResponse) -> (r: Option<u64>)
    ensures
        r == reported_board(*resp),
{
    if resp.items.len() > 0 {
        match &resp.items[0].board {
            Some(b) => parse_u64(b.id.as_str()),
            None => None,
        }
    } else {
        None
    }
}

/// The board to update a linked item on: sub-items live on their own board,
/// which the item-board query reports; otherwise the configured board.
pub fn update_board_id(plan_board: u64, is_subitem: bool, resp: Option<&ItemBoardResponse>) -> (r: u64)
    ensures
        r == (if is_subitem && resp is Some {
            match reported_board(*resp->0) {
                Some(b) => b,
                None => plan_board,
            }
        } else {
            plan_board
        }),
{
    if is_subitem {
        if let Some(resp) = resp {
            return match item_board_id(resp) {
                Some(b) => b,
                None => plan_board,
            };
        }
    }
    plan_board
}

/// The reference of the name column: the configured one, else "name".
pub fn name_column_ref(cfg: &Config) -> (r: String)
    ensures
        r@ == match cfg.name_column {
            Some(c) => c@,
            None => "name"@,
        },
{
    match &cfg.name_column {
        Some(c) => c.clone(),
        None => String::from_str("name"),
    }
}

/// A resolved column id, or the reference itself when it did not resolve.
pub fn column_or_ref(resolved: Option<String>, column_ref: &str) -> (r: String)
    ensures
        r@ == match resolved {
            Some(c) => c@,
            None => column_ref@,
        },
{
    match resolved {
        Some(c) => c,
        None => String::from_str(column_ref),
    }
}

/// The status setting to send: the status column (when it resolved), with
/// the index of the label (when the column's labels were read and the label
/// is among them).
pub open spec fn status_setting_of(
    status_col: Option<Seq<char>>,
    labels: Option<Seq<(Seq<char>, u64)>>,
    label: Seq<char>,
) -> Option<(Seq<char>, u64)> {
    match (status_col, labels) {
        (Some(c), Some(m)) => match index_for_label(m, label) {
            Some(i) => Some((c, i)),
            None => None,
        },
        _ => None,
    }
}

/// The status column and index to send for a label.
pub fn status_setting(status_col: Option<String>, labels: Option<&LabelIndexMap>, label: &str) -> (r: Option<
    (String, u64),
>)
    ensures
        match r {
            Some((c, i)) => status_setting_of(opt_text(status_col), match labels {
                Some(m) => Some(m@),
                None => None,
            }, label@) == Some((c@, i)),
            None => status_setting_of(opt_text(status_col), match labels {
                Some(m) => Some(m@),
                None => None,
            }, label@) is None,
        },
{
    match (status_col, labels) {
        (Some(c), Some(m)) => match status_index_for_label(m, label) {
            Some(i) => Some((c, i)),
            None => None,
        },
        _ => None,
    }
}

/// The values sent to a linked item: its (trimmed) title in the name
/// column, then the status index when there is one.
pub fn existing_item_values(name_col: String, title: &str, status: Option<(String, u64)>) -> (r: ColumnValues)
    ensures
        r@ == match status {
            Some((c, i)) => with_setting(
                seq![(name_col@, SettingView::Text(unicode_trimmed(title@)))],
                c@,
                SettingView::Index(i),
            ),
            None => seq![(name_col@, SettingView::Text(unicode_trimmed(title@)))],
        },
{
    let mut values = ColumnValues::new();
    let t = trim(title);
    let ghost nv = name_col@;
    values.set(name_col, ColumnSetting::Text(String::from_str(t)));
    proof {
        lemma_first_match_none(
            Seq::<(Seq<char>, SettingView)>::empty(),
            crate::sync::values::setting_for(nv),
        );
    }
    assert(values@ =~= seq![(nv, SettingView::Text(unicode_trimmed(title@)))]);
    if let Some((c, i)) = status {
        values.set(c, ColumnSetting::Index(i));
    }
    values
}

/// The values sent with a new item: the status index when there is one,
/// then the owner when there is one.
pub fn new_item_values(status: Option<(String, u64)>, owner: Option<(String, u64)>) -> (r: ColumnValues)
    ensures
        r@ == ({
            let s0 = Seq::<(Seq<char>, SettingView)>::empty();
            let s1 = match status {
                Some((c, i)) => with_setting(s0, c@, SettingView::Index(i)),
                None => s0,
            };
            match owner {
                Some((c, p)) => with_setting(s1, c@, SettingView::Person(p)),
                None => s1,
            }
        }),
{
    let mut values = ColumnValues::new();
    assert(values@ =~= Seq::<(Seq<char>, SettingView)>::empty());
    if let Some((c, i)) = status {
        values.set(c, ColumnSetting::Index(i));
    }
    if let Some((c, p)) = owner {
        values.set(c, ColumnSetting::Person(p));
    }
    values
}

/// The id of the current user as the API reports it.
#[derive(Debug)]
pub enum UserId {
    /// A non-negative integer.
    Unsigned(u64),
    /// A negative integer.
    Signed(i64),
    /// A string.
    Text(String),
    /// Anything else.
    Other,
}

/// The person id to assign: an integer as is (a negative one converted with
/// `as u64`), a string when it parses as a number.
pub open spec fn person_id_of(id: UserId) -> Option<u64> {
    match id {
        UserId::Unsigned(n) => Some(n),
        UserId::Signed(n) => Some(n as u64),
        UserId::Text(s) => parsed_u64(s@),
        UserId::Other => None,
    }
}

/// The person id of the current user, if it can be read as a number.
pub fn owner_user_id(id: &UserId) -> (r: Option<u64>)
    ensures
        r == person_id_of(*id),
{
    match id {
        UserId::Unsigned(n) => Some(*n),
        UserId::Signed(n) => Some(*n as u64),
        UserId::Text(s) => parse_u64(s.as_str()),
        UserId::Other => None,
    }
}

/// Records the push of a linked issue (stamping its link under the link's own
/// beads id, keeping the link's item, kind and parent) and describes it.
pub fn finish_existing_push(mapping: &mut SyncMapping, issue: &BeadsIssue, existing: &MappingEntry) -> (a:
    PushAction)
    ensures
        final(mapping).board_id == old(mapping).board_id,
        exists|stamp: String|
            final(mapping).entries@ == upserted(
                old(mapping).entries@,
                link_entry(
                    existing.beads_id,
                    existing.monday_item_id,
                    existing.is_subitem,
                    existing.parent_monday_id,
                    stamp,
                ),
            ),
        entry_for_beads(old(mapping).entries@, existing.beads_id@) is Some ==> final(mapping).entries@.len()
            == old(mapping).entries@.len(),
        a.beads_id@ == issue.id@,
        a.monday_item_id@ == existing.monday_item_id@,
        a.title@ == issue.title@,
{
    let monday_id = existing.monday_item_id.clone();
    let stamp = mapping.record_link(
        existing.beads_id.clone(),
        monday_id.clone(),
        existing.is_subitem,
        clone_opt_string(&existing.parent_monday_id),
    );
    PushAction { beads_id: issue.id.clone(), monday_item_id: monday_id, title: issue.title.clone() }
}

/// Records the link of a newly created item (a sub-item when it has a
/// parent) and describes the push.
pub fn finish_new_push(
    mapping: &mut SyncMapping,
    issue: &BeadsIssue,
    monday_id: String,
    parent_monday_id: Option<&str>,
) -> (a: PushAction)
    ensures
        final(mapping).board_id == old(mapping).board_id,
        exists|stamp: String, parent: Option<String>|
            #![trigger link_entry(issue.id, monday_id, parent_monday_id is Some, parent, stamp)]
            opt_text(parent) == match parent_monday_id {
                Some(p) => Some(p@),
                None => None::<Seq<char>>,
            } && final(mapping).entries@ == upserted(
                old(mapping).entries@,
                link_entry(issue.id, monday_id, parent_monday_id is Some, parent, stamp),
            ),
        a.beads_id@ == issue.id@,
        a.monday_item_id@ == monday_id@,
        a.title@ == issue.title@,
{
    let parent: Option<String> = match parent_monday_id {
        Some(p) => Some(String::from_str(p)),
        None => None,
    };
    let ghost pv = parent;
    let stamp = mapping.record_link(issue.id.clone(), monday_id.clone(), parent_monday_id.is_some(), parent);
    assert(opt_text(pv) == match parent_monday_id {
        Some(p) => Some(p@),
        None => None::<Seq<char>>,
    });
    assert(final(mapping).entries@ == upserted(
        old(mapping).entries@,
        link_entry(issue.id, monday_id, parent_monday_id is Some, pv, stamp),
    ));
    PushAction { beads_id: issue.id.clone(), monday_item_id: monday_id, title: issue.title.clone() }
}

/// An epic push needs an issue of type "epic".
pub fn check_epic(epic_id: &str, epic: &BeadsIssue) -> (r: Result<(), PushError>)
    ensures
        epic.issue_type@ == "epic"@ ==> r is Ok,
        epic.issue_type@ != "epic"@ ==> (r matches Err(PushError::NotAnEpic { epic_id: e, issue_type: t })
            && e@ == epic_id@ && t@ == epic.issue_type@),
{
    if text_eq(epic.issue_type.as_str(), "epic") {
        Ok(())
    } else {
        Err(PushError::NotAnEpic { epic_id: String::from_str(epic_id), issue_type: epic.issue_type.clone() })
    }
}

/// The issue is listed with dependencies and is not already a known child.
pub open spec fn extra_candidate(children: Seq<IssueView>) -> spec_fn(IssueView) -> bool {
    |i: IssueView| i.dependency_count != 0 && !(exists|k: int| 0 <= k < children.len() && (#[trigger] children[k]).id == i.id)
}

fn is_known_child(children: &[BeadsIssue], id: &str) -> (r: bool)
    ensures
        r == exists|k: int| 0 <= k < children@.len() && (#[trigger] issue_views(children@)[k]).id == id@,
{
    let n = children.len();
    for k in 0..n
        invariant
            n == children@.len(),
            forall|j: int| 0 <= j < k ==> (#[trigger] issue_views(children@)[j]).id != id@,
    {
        if text_eq(children[k].id.as_str(), id) {
            assert(issue_views(children@)[k as int].id == id@);
            return true;
        }
    }
    false
}

/// The ids of issues that may depend on an epic without being among its known
/// children: `bd list` reports them with dependencies, which `bd show` then
/// gives in full.
pub fn extra_child_candidates(all_issues: &[BeadsIssue], children: &[BeadsIssue]) -> (r: Vec<String>)
    ensures
        r@.map_values(|s: String| s@) == issue_views(all_issues@).filter(
            extra_candidate(issue_views(children@)),
        ).map_values(|i: IssueView| i.id),
{
    let ghost views = issue_views(all_issues@);
    let ghost p = extra_candidate(issue_views(children@));
    let mut out: Vec<String> = Vec::new();
    let n = all_issues.len();
    for i in 0..n
        invariant
            n == all_issues@.len(),
            views == issue_views(all_issues@),
            p == extra_candidate(issue_views(children@)),
            out@.map_values(|s: String| s@) == views.subrange(0, i as int).filter(p).map_values(
                |v: IssueView| v.id,
            ),
    {
        reveal_with_fuel(Seq::<_>::filter, 1);
        assert(views.subrange(0, i + 1).drop_last() =~= views.subrange(0, i as int));
        let ghost before = out@;
        let cand = &all_issues[i];
        if cand.dependency_count != 0 && !is_known_child(children, cand.id.as_str()) {
            out.push(cand.id.clone());
            assert(out@.map_values(|s: String| s@) =~= before.map_values(|s: String| s@).push(
                views[i as int].id,
            ));
            assert(views.subrange(0, i + 1).filter(p) == views.subrange(0, i as int).filter(p).push(
                views[i as int],
            ));
            assert(views.subrange(0, i + 1).filter(p).map_values(|v: IssueView| v.id) =~= views.subrange(
                0,
                i as int,
            ).filter(p).map_values(|v: IssueView| v.id).push(views[i as int].id));
        } else {
            assert(!p(views[i as int]));
        }
    }
    assert(views.subrange(0, n as int) =~= views);
    out
}

/// The issue is the given id.
pub open spec fn issue_has_id(id: Seq<char>) -> spec_fn(IssueView) -> bool {
    |i: IssueView| i.id == id
}

/// The first listed issue with the id is an epic.
pub open spec fn listed_epic(issues: Seq<IssueView>, id: Seq<char>) -> bool {
    match first_match(issues, issue_has_id(id)) {
        Some(k) => issues[k].issue_type == "epic"@,
        None => false,
    }
}

/// The dependency makes the issue a child of a linked epic.
pub open spec fn parent_link_to_linked_epic(entries: Seq<MappingEntry>, issues: Seq<IssueView>) -> spec_fn(
    BeadsDependency,
) -> bool {
    |dep: BeadsDependency|
        is_child_link(dep, dep.depends_on_id@) && entry_for_beads(entries, dep.depends_on_id@) is Some
            && listed_epic(issues, dep.depends_on_id@)
}

/// The item of the linked parent epic of the issue: the target of its first
/// dependency that parents it (a "parent-child" or "blocks" dependency) to
/// an epic that is linked.
pub open spec fn linked_parent_of(issue: IssueView, entries: Seq<MappingEntry>, issues: Seq<IssueView>) -> Option<
    Seq<char>,
> {
    match issue.dependencies {
        Some(d) => match first_match(d, parent_link_to_linked_epic(entries, issues)) {
            Some(k) => Some(entry_for_beads(entries, d[k].depends_on_id@)->0.monday_item_id@),
            None => None,
        },
        None => None,
    }
}

/// Whether the first issue listed with the id is an epic.
pub fn is_listed_epic(issues: &[BeadsIssue], id: &str) -> (r: bool)
    ensures
        r == listed_epic(issue_views(issues@), id@),
{
    let ghost views = issue_views(issues@);
    let n = issues.len();
    for k in 0..n
        invariant
            n == issues@.len(),
            views == issue_views(issues@),
            forall|j: int| 0 <= j < k ==> !issue_has_id(id@)(#[trigger] views[j]),
    {
        if text_eq(issues[k].id.as_str(), id) {
            proof {
                lemma_first_match_found(views, issue_has_id(id@), k as int);
            }
            return text_eq(issues[k].issue_type.as_str(), "epic");
        }
    }
    proof {
        lemma_first_match_none(views, issue_has_id(id@));
    }
    false
}

/// The monday.com item to push an issue under: that of its linked parent
/// epic, so that a task under a linked epic becomes its sub-item. The epics
/// are recognised among `all_issues`, as `bd list` reports them.
pub fn linked_parent_monday_id(issue: &BeadsIssue, mapping: &SyncMapping, all_issues: &[BeadsIssue]) -> (r: Option<
    String,
>)
    ensures
        opt_text(r) == linked_parent_of(issue@, mapping.entries@, issue_views(all_issues@)),
{
    match &issue.dependencies {
        Some(deps) => {
            let ghost p = parent_link_to_linked_epic(mapping.entries@, issue_views(all_issues@));
            let n = deps.len();
            for k in 0..n
                invariant
                    n == deps@.len(),
                    issue@.dependencies == Some(deps@),
                    p == parent_link_to_linked_epic(mapping.entries@, issue_views(all_issues@)),
                    forall|j: int| 0 <= j < k ==> !p(#[trigger] deps@[j]),
            {
                let target = deps[k].depends_on_id.as_str();
                if dependency_is_child_link(&deps[k], target) {
                    if let Some(m) = mapping.find_by_beads_id(target) {
                        if is_listed_epic(all_issues, target) {
                            proof {
                                lemma_first_match_found(deps@, p, k as int);
                            }
                            return Some(m.monday_item_id.clone());
                        }
                    }
                }
            }
            proof {
                lemma_first_match_none(deps@, p);
            }
            None
        },
        None => None,
    }
}

/// Issues in order, followed by more issues in order.
fn concat_issues(a: Vec<BeadsIssue>, b: &Vec<BeadsIssue>) -> (r: Vec<BeadsIssue>)
    ensures
        issue_views(r@) == issue_views(a@) + issue_views(b@),
{
    let mut out = a;
    let ghost start = issue_views(out@);
    let n = b.len();
    for i in 0..n
        invariant
            n == b@.len(),
            issue_views(out@) == start + issue_views(b@).subrange(0, i as int),
    {
        let ghost before = out@;
        out.push(b[i].clone());
        assert(issue_views(out@) =~= issue_views(before).push(b@[i as int]@));
        assert(issue_views(b@).subrange(0, i + 1) =~= issue_views(b@).subrange(0, i as int).push(b@[i as int]@));
    }
    assert(issue_views(b@).subrange(0, n as int) =~= issue_views(b@));
    out
}

/// What `sync push --epic` pushes, in order: the epic itself, then every
/// child of it (by a parent or "blocks" dependency, or a hierarchical id)
/// among the listed issues. The children go under the epic's item. Refused
/// when the issue is not an epic.
pub fn push_epic_targets(epic_id: &str, epic: &BeadsIssue, all_issues: &[BeadsIssue]) -> (r: Result<
    Vec<BeadsIssue>,
    PushError,
>)
    ensures
        epic.issue_type@ != "epic"@ ==> (r matches Err(PushError::NotAnEpic { epic_id: e, issue_type: t })
            && e@ == epic_id@ && t@ == epic.issue_type@),
        epic.issue_type@ == "epic"@ ==> (r matches Ok(v) && issue_views(v@) == seq![epic@] + issue_views(
            all_issues@,
        ).filter(child_of(epic_id@))),
{
    match check_epic(epic_id, epic) {
        Err(e) => {
            return Err(e);
        },
        Ok(()) => {},
    }
    let children = all_children(all_issues, epic_id);
    let mut first: Vec<BeadsIssue> = Vec::new();
    first.push(epic.clone());
    assert(issue_views(first@) =~= seq![epic@]);
    Ok(concat_issues(first, &children))
}

/// The issue has no link.
pub open spec fn unlinked_in(entries: Seq<MappingEntry>) -> spec_fn(IssueView) -> bool {
    |i: IssueView| entry_for_beads(entries, i.id) is None
}

/// The issues, in order, that have no link.
pub fn unlinked_issues(mapping: &SyncMapping, issues: &Vec<BeadsIssue>) -> (r: Vec<BeadsIssue>)
    ensures
        issue_views(r@) == issue_views(issues@).filter(unlinked_in(mapping.entries@)),
{
    let mut out: Vec<BeadsIssue> = Vec::new();
    let n = issues.len();
    let ghost views = issue_views(issues@);
    let ghost p = unlinked_in(mapping.entries@);
    for i in 0..n
        invariant
            n == issues@.len(),
            views == issue_views(issues@),
            p == unlinked_in(mapping.entries@),
            issue_views(out@) == views.subrange(0, i as int).filter(p),
    {
        reveal_with_fuel(Seq::<_>::filter, 1);
        assert(views.subrange(0, i + 1).drop_last() =~= views.subrange(0, i as int));
        let ghost before = out@;
        if mapping.find_by_beads_id(issues[i].id.as_str()).is_none() {
            out.push(issues[i].clone());
            assert(issue_views(out@) =~= issue_views(before).push(issues@[i as int]@));
        }
    }
    assert(views.subrange(0, n as int) =~= views);
    out
}

/// The children that `sync push` (with no arguments) creates under a linked
/// epic, in order: the epic's children among the listed issues, then those
/// among the fully shown candidates that a dependency parents to it, leaving
/// out every issue that is already linked.
pub fn epic_children_to_push(
    mapping: &SyncMapping,
    epic_id: &str,
    all_issues: &[BeadsIssue],
    candidates: &[BeadsIssue],
) -> (r: Vec<BeadsIssue>)
    ensures
        issue_views(r@) == (issue_views(all_issues@).filter(child_of(epic_id@)) + issue_views(candidates@).filter(
            dependent_of(epic_id@),
        )).filter(unlinked_in(mapping.entries@)),
{
    let children = all_children(all_issues, epic_id);
    let extra = children_of_epic(candidates, epic_id);
    let kids = concat_issues(children, &extra);
    unlinked_issues(mapping, &kids)
}

/// The push was filed as `record` files it.
pub open spec fn push_filed(old: PushResult, new: PushResult, was_linked: bool, a: PushAction) -> bool {
    &&& new.skipped == old.skipped
    &&& if was_linked {
        new.updated@ == old.updated@.push(a) && new.created == old.created
    } else {
        new.created@ == old.created@.push(a) && new.updated == old.updated
    }
}

/// A skip was filed as `skip` files it.
pub open spec fn skip_filed(
    old: PushResult,
    new: PushResult,
    beads_id: Seq<char>,
    monday_item_id: Seq<char>,
    title: Seq<char>,
) -> bool {
    &&& appended(new.skipped@, old.skipped@)
    &&& new.skipped@.last().beads_id@ == beads_id
    &&& new.skipped@.last().monday_item_id@ == monday_item_id
    &&& new.skipped@.last().title@ == title
    &&& new.created == old.created
    &&& new.updated == old.updated
}

/// What `sync push` (with no arguments) does next.
#[derive(Debug)]
pub enum PushAllNext {
    /// Show the linked issue and push it through this link, under the
    /// link's parent item when it has one.
    Linked { entry: MappingEntry },
    /// Show the linked issue; when it is an epic, list the candidates for its
    /// children.
    Scan { entry: MappingEntry },
    /// Create this child of a linked epic under the epic's item.
    Child { issue: BeadsIssue, parent_monday_id: String },
    /// Everything has been gone over.
    Done,
}

/// How the push of a linked issue went.
#[derive(Debug)]
pub enum LinkedPush {
    /// `bd show` failed, with its error.
    NotShown(String),
    /// The push failed, with its error.
    Failed(String),
    /// The push went through.
    Pushed(PushAction),
}

/// What became of a pending child of a linked epic.
#[derive(Debug)]
pub enum ChildPush {
    /// It was already linked, so it was not pushed.
    Linked,
    /// It was created as the item with this id.
    Created(String),
    /// Its push failed, with the error.
    Failed(String),
}

/// A pass of `sync push` over the links as they were when it started: first
/// every link is pushed, then each linked epic's children that are not
/// linked yet are created under its item. An error is filed as a skip and
/// never stops the pass.
pub struct PushAllRun {
    entries: Vec<MappingEntry>,
    next: usize,
    scan: usize,
    children: Vec<BeadsIssue>,
    child_pos: usize,
    parent: String,
    result: PushResult,
}

impl PushAllRun {
    /// The links the run goes over.
    pub closed spec fn snapshot(&self) -> Seq<MappingEntry> {
        self.entries@
    }

    /// How many steps over the links the run has taken: each link is pushed,
    /// then each is scanned for children.
    pub closed spec fn done(&self) -> int {
        self.next + self.scan
    }

    /// The children still to create.
    pub closed spec fn pending(&self) -> Seq<IssueView> {
        issue_views(self.children@).subrange(self.child_pos as int, self.children@.len() as int)
    }

    /// The item the pending children go under.
    pub closed spec fn parent_monday_id(&self) -> Seq<char> {
        self.parent@
    }

    /// What the run has recorded so far.
    pub closed spec fn recorded(&self) -> PushResult {
        self.result
    }

    pub closed spec fn wf(&self) -> bool {
        &&& self.next <= self.entries@.len()
        &&& self.scan <= self.entries@.len()
        &&& self.scan > 0 ==> self.next == self.entries@.len()
        &&& self.child_pos <= self.children@.len()
    }

    /// Starts a pass over the registry's links.
    pub fn start(mapping: &SyncMapping) -> (r: Self)
        ensures
            r.wf(),
            r.snapshot() == mapping.entries@,
            r.done() == 0,
            r.pending().len() == 0,
            r.recorded().created@.len() == 0,
            r.recorded().updated@.len() == 0,
            r.recorded().skipped@.len() == 0,
    {
        let r = PushAllRun {
            entries: clone_entries(&mapping.entries),
            next: 0,
            scan: 0,
            children: Vec::new(),
            child_pos: 0,
            parent: String::new(),
            result: PushResult::new(),
        };
        assert(r.pending() =~= Seq::<IssueView>::empty());
        r
    }

    /// The next thing to do: a pending child first, else the next link to
    /// push, else the next link to scan.
    pub fn current(&self) -> (r: PushAllNext)
        requires
            self.wf(),
        ensures
            self.pending().len() > 0 ==> (r matches PushAllNext::Child { issue, parent_monday_id } && issue@
                == self.pending()[0] && parent_monday_id@ == self.parent_monday_id()),
            self.pending().len() == 0 && self.done() < self.snapshot().len() ==> (r matches PushAllNext::Linked {
                entry,
            } && entry == self.snapshot()[self.done()]),
            self.pending().len() == 0 && self.snapshot().len() <= self.done() < 2 * self.snapshot().len() ==> (r matches PushAllNext::Scan {
                entry,
            } && entry == self.snapshot()[self.done() - self.snapshot().len()]),
            self.pending().len() == 0 && self.done() >= 2 * self.snapshot().len() ==> r is Done,
    {
        let n = self.entries.len();
        if self.child_pos < self.children.len() {
            PushAllNext::Child { issue: self.children[self.child_pos].clone(), parent_monday_id: self.parent.clone() }
        } else if self.next < n {
            PushAllNext::Linked { entry: self.entries[self.next].clone() }
        } else if self.scan < n {
            PushAllNext::Scan { entry: self.entries[self.scan].clone() }
        } else {
            PushAllNext::Done
        }
    }

    /// Records the push of the current link: updated when it went through,
    /// else skipped with the error.
    pub fn linked_pushed(&mut self, outcome: LinkedPush)
        requires
            old(self).wf(),
            old(self).pending().len() == 0,
            old(self).done() < old(self).snapshot().len(),
        ensures
            final(self).wf(),
            final(self).snapshot() == old(self).snapshot(),
            final(self).done() == old(self).done() + 1,
            final(self).pending().len() == 0,
            ({
                let e = old(self).snapshot()[old(self).done()];
                match outcome {
                    LinkedPush::NotShown(msg) => skip_filed(
                        old(self).recorded(),
                        final(self).recorded(),
                        e.beads_id@,
                        e.monday_item_id@,
                        "beads error: "@ + msg@,
                    ),
                    LinkedPush::Failed(msg) => skip_filed(
                        old(self).recorded(),
                        final(self).recorded(),
                        e.beads_id@,
                        e.monday_item_id@,
                        "error: "@ + msg@,
                    ),
                    LinkedPush::Pushed(a) => push_filed(old(self).recorded(), final(self).recorded(), true, a),
                }
            }),
    {
        let n = self.entries.len();
        assert(self.next < n);
        let e = &self.entries[self.next];
        match outcome {
            LinkedPush::NotShown(msg) => {
                self.result.skip(e.beads_id.as_str(), e.monday_item_id.as_str(), "beads error: ", msg.as_str());
            },
            LinkedPush::Failed(msg) => {
                self.result.skip(e.beads_id.as_str(), e.monday_item_id.as_str(), "error: ", msg.as_str());
            },
            LinkedPush::Pushed(a) => {
                self.result.record(true, a);
            },
        }
        self.next = self.next + 1;
    }

    /// Records the scan of the current link: when `bd show` gave an epic, its
    /// children not linked yet (among the listed issues, then among the shown
    /// candidates) come next, under the link's item.
    pub fn scanned(
        &mut self,
        mapping: &SyncMapping,
        shown: &Result<BeadsIssue, String>,
        all_issues: &[BeadsIssue],
        candidates: &[BeadsIssue],
    )
        requires
            old(self).wf(),
            old(self).pending().len() == 0,
            old(self).snapshot().len() <= old(self).done() < 2 * old(self).snapshot().len(),
        ensures
            final(self).wf(),
            final(self).snapshot() == old(self).snapshot(),
            final(self).done() == old(self).done() + 1,
            final(self).recorded() == old(self).recorded(),
            ({
                let e = old(self).snapshot()[old(self).done() - old(self).snapshot().len()];
                match *shown {
                    Ok(i) if i.issue_type@ == "epic"@ => {
                        &&& final(self).pending() == (issue_views(all_issues@).filter(child_of(e.beads_id@))
                            + issue_views(candidates@).filter(dependent_of(e.beads_id@))).filter(
                            unlinked_in(mapping.entries@),
                        )
                        &&& final(self).parent_monday_id() == e.monday_item_id@
                    },
                    _ => final(self).pending().len() == 0,
                }
            }),
    {
        let n = self.entries.len();
        let k = self.scan;
        assert(k < n);
        let e = &self.entries[k];
        let mut kids: Vec<BeadsIssue> = Vec::new();
        match shown {
            Ok(i) => {
                if text_eq(i.issue_type.as_str(), "epic") {
                    kids = epic_children_to_push(mapping, e.beads_id.as_str(), all_issues, candidates);
                    self.parent = e.monday_item_id.clone();
                }
            },
            Err(_) => {},
        }
        self.children = kids;
        self.child_pos = 0;
        self.scan = self.scan + 1;
        assert(issue_views(self.children@).subrange(0, self.children@.len() as int) =~= issue_views(
            self.children@,
        ));
    }

    /// Whether the first pending child has been linked meanwhile, in which
    /// case it is not pushed.
    pub fn child_is_linked(&self, mapping: &SyncMapping) -> (r: bool)
        requires
            self.wf(),
            self.pending().len() > 0,
        ensures
            r == (entry_for_beads(mapping.entries@, self.pending()[0].id) is Some),
    {
        let n = self.children.len();
        assert(self.child_pos < n);
        assert(issue_views(self.children@)[self.child_pos as int] == self.pending()[0]);
        mapping.find_by_beads_id(self.children[self.child_pos].id.as_str()).is_some()
    }

    /// Records what became of the first pending child: nothing when it was
    /// already linked, created (under the pending parent item) with the new
    /// item's id, or skipped with the error.
    pub fn child_pushed(&mut self, outcome: ChildPush)
        requires
            old(self).wf(),
            old(self).pending().len() > 0,
        ensures
            final(self).wf(),
            final(self).snapshot() == old(self).snapshot(),
            final(self).done() == old(self).done(),
            final(self).pending() == old(self).pending().drop_first(),
            final(self).parent_monday_id() == old(self).parent_monday_id(),
            ({
                let c = old(self).pending()[0];
                match outcome {
                    ChildPush::Linked => final(self).recorded() == old(self).recorded(),
                    ChildPush::Created(mid) => {
                        &&& appended(final(self).recorded().created@, old(self).recorded().created@)
                        &&& final(self).recorded().created@.last().beads_id@ == c.id
                        &&& final(self).recorded().created@.last().monday_item_id@ == mid@
                        &&& final(self).recorded().created@.last().title@ == c.title
                        &&& final(self).recorded().updated == old(self).recorded().updated
                        &&& final(self).recorded().skipped == old(self).recorded().skipped
                    },
                    ChildPush::Failed(msg) => skip_filed(
                        old(self).recorded(),
                        final(self).recorded(),
                        c.id,
                        old(self).parent_monday_id(),
                        "error: "@ + msg@,
                    ),
                }
            }),
    {
        let ghost before = self.pending();
        let n = self.children.len();
        assert(self.child_pos < n);
        assert(issue_views(self.children@)[self.child_pos as int] == before[0]);
        match outcome {
            ChildPush::Linked => {},
            ChildPush::Created(mid) => {
                let c = &self.children[self.child_pos];
                let a = PushAction { beads_id: c.id.clone(), monday_item_id: mid, title: c.title.clone() };
                self.result.record(false, a);
            },
            ChildPush::Failed(msg) => {
                let c = &self.children[self.child_pos];
                self.result.skip(c.id.as_str(), self.parent.as_str(), "error: ", msg.as_str());
            },
        }
        self.child_pos = self.child_pos + 1;
        assert(self.pending() =~= before.drop_first());
    }

    /// Ends the run, handing back the record.
    pub fn finish(self) -> (r: PushResult)
        ensures
            r == self.recorded(),
    {
        self.result
    }
}

/// An issue whose first dependency of type "parent-child" (what
/// `bd create --parent` records) or "blocks" on a linked epic points at epic
/// `e` is pushed under `e`'s item, whatever dependencies of other kinds, or
/// on unlinked issues or non-epics, come before it.
pub proof fn lemma_parent_is_first_linked_parent_epic(
    issue: IssueView,
    entries: Seq<MappingEntry>,
    issues: Seq<IssueView>,
    k: int,
)
    requires
        issue.dependencies is Some,
        0 <= k < issue.dependencies->0.len(),
        issue.dependencies->0[k].dep_type@ == "parent-child"@ || issue.dependencies->0[k].dep_type@ == "blocks"@,
        entry_for_beads(entries, issue.dependencies->0[k].depends_on_id@) is Some,
        listed_epic(issues, issue.dependencies->0[k].depends_on_id@),
        forall|j: int|
            0 <= j < k ==> !((#[trigger] issue.dependencies->0[j]).dep_type@ == "parent-child"@
                || issue.dependencies->0[j].dep_type@ == "blocks"@) || entry_for_beads(
                entries,
                issue.dependencies->0[j].depends_on_id@,
            ) is None || !listed_epic(issues, issue.dependencies->0[j].depends_on_id@),
    ensures
        linked_parent_of(issue, entries, issues) == Some(
            entry_for_beads(entries, issue.dependencies->0[k].depends_on_id@)->0.monday_item_id@,
        ),
{
    let d = issue.dependencies->0;
    let p = parent_link_to_linked_epic(entries, issues);
    assert forall|j: int| 0 <= j < k implies !p(#[trigger] d[j]) by {}
    assert(p(d[k]));
    lemma_first_match_found(d, p, k);
}

} // verus!
