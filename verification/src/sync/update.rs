//! `sync update`: refresh every already-linked item, never creating anything,
//! and `sync status`: report what is in sync and what has drifted.
//!
//! The fetches (`bd show`, the monday.com item query) and the resulting
//! writes happen outside the library; an `UpdateRun` takes what was fetched
//! for the current link, records the outcome, and says which writes to make.

use vstd::prelude::*;
use crate::api::types::{ColumnValue, Item};
use crate::beads::{BdCommand, BeadsCli, BeadsIssue};
use crate::config::{label_for_status, status_for_label, Config, ConfigError};
use crate::search::{any_match, first_match, lemma_first_match_found, lemma_first_match_none};
use crate::sync::mapping::{
    beads_ids_unique, clone_entries, has_beads_id, lemma_add_linked_keeps_id_set, linked_beads_ids, upserted,
    MappingEntry, SyncMapping,
};
use crate::sync::columns::{index_for_label, status_index_for_label, LabelIndexMap};
use crate::sync::values::{ColumnSetting, ColumnValues, SettingView};
use crate::text::{join2, text_eq};

verus! {

#[derive(Debug)]
pub struct UpdateAction {
    pub beads_id: String,
    pub monday_item_id: String,
    pub field: String,
    pub old_value: String,
    pub new_value: String,
    pub direction: String,
}

#[derive(Debug)]
pub struct ConflictAction {
    pub beads_id: String,
    pub monday_item_id: String,
    pub field: String,
    pub beads_value: String,
    pub monday_value: String,
    pub resolved: String,
}

#[derive(Debug)]
pub struct ErrorAction {
    pub beads_id: String,
    pub error: String,
}

#[derive(Debug)]
pub struct UpdateResult {
    pub updated: Vec<UpdateAction>,
    pub conflicts: Vec<ConflictAction>,
    pub unchanged: Vec<String>,
    pub errors: Vec<ErrorAction>,
}

impl UpdateResult {
    pub fn new() -> (r: Self)
        ensures
            r.updated@.len() == 0,
            r.conflicts@.len() == 0,
            r.unchanged@.len() == 0,
            r.errors@.len() == 0,
    {
        UpdateResult { updated: Vec::new(), conflicts: Vec::new(), unchanged: Vec::new(), errors: Vec::new() }
    }
}

/// What the monday.com item query gave for a linked item.
#[derive(Debug)]
pub enum MondayLookup {
    /// The item.
    Found(Item),
    /// The query answered with no item (deleted?).
    Missing,
    /// The query failed, with its error message.
    Failed(String),
}

/// How a status conflict (both sides changed, both directions asked for) is
/// resolved: beads wins unless the user chose otherwise.
#[derive(Debug, Clone, Copy, PartialEq, Eq)]
pub enum ConflictChoice {
    Beads,
    Monday,
    Skip,
}

/// The board's status column as the run resolved it from the configured
/// reference: its id, and its labels with the index to send for each.
#[derive(Debug)]
pub struct StatusColumn {
    pub id: String,
    pub labels: LabelIndexMap,
}

/// The id of the resolved status column, if any.
pub open spec fn status_col_id(status: Option<StatusColumn>) -> Option<Seq<char>> {
    match status {
        Some(c) => Some(c.id@),
        None => None,
    }
}

/// The column value is for the given column id.
pub open spec fn value_has_id(col: Seq<char>) -> spec_fn(ColumnValue) -> bool {
    |cv: ColumnValue| cv.id@ == col
}

/// The non-empty text of the first value of a column, if any.
pub open spec fn column_text_of(item: Item, col: Seq<char>) -> Option<Seq<char>> {
    match first_match(item.column_values@, value_has_id(col)) {
        Some(i) => match item.column_values@[i].text {
            Some(t) => if t@.len() > 0 {
                Some(t@)
            } else {
                None
            },
            None => None,
        },
        None => None,
    }
}

/// Extract the text value for a given column ID from a monday item.
pub fn column_text(item: &Item, col_id: &str) -> (r: Option<String>)
    ensures
        crate::text::opt_text(r) == column_text_of(*item, col_id@),
{
    let vals = &item.column_values;
    let n = vals.len();
    for i in 0..n
        invariant
            n == vals@.len(),
            vals@ == item.column_values@,
            forall|j: int| 0 <= j < i ==> !value_has_id(col_id@)(#[trigger] vals@[j]),
    {
        if text_eq(vals[i].id.as_str(), col_id) {
            proof {
                lemma_first_match_found(vals@, value_has_id(col_id@), i as int);
            }
            return match &vals[i].text {
                Some(t) => if t.unicode_len() > 0 {
                    Some(t.clone())
                } else {
                    None
                },
                None => None,
            };
        }
    }
    proof {
        lemma_first_match_none(vals@, value_has_id(col_id@));
    }
    None
}

/// The beads status that the item's status column (by its resolved id)
/// shows, or empty when no status column resolved or its value is empty.
pub open spec fn monday_beads_status(cfg: Config, col: Option<Seq<char>>, item: Item) -> Seq<char> {
    match col {
        Some(col) => match column_text_of(item, col) {
            Some(t) => status_for_label(cfg.status_map@, t),
            None => Seq::empty(),
        },
        None => Seq::empty(),
    }
}

/// The beads status shown on monday.com, or empty.
pub fn monday_status_as_beads(cfg: &Config, status: &Option<StatusColumn>, item: &Item) -> (r: String)
    ensures
        r@ == monday_beads_status(*cfg, status_col_id(*status), *item),
{
    match status {
        Some(col) => match column_text(item, col.id.as_str()) {
            Some(t) => cfg.monday_label_to_beads_status(t.as_str()),
            None => String::new(),
        },
        None => String::new(),
    }
}

/// The statuses differ, counting an empty monday.com status as no opinion.
pub open spec fn status_drift(monday_status: Seq<char>, beads_status: Seq<char>) -> bool {
    monday_status.len() > 0 && monday_status != beads_status
}

pub open spec fn pushes(direction: Seq<char>) -> bool {
    direction == "push"@ || direction == "both"@
}

pub open spec fn pulls(direction: Seq<char>) -> bool {
    direction == "pull"@ || direction == "both"@
}

/// The resolution recorded for a conflict.
pub open spec fn resolution_text(choice: ConflictChoice) -> Seq<char> {
    match choice {
        ConflictChoice::Beads => "beads_wins"@,
        ConflictChoice::Monday => "monday_wins"@,
        ConflictChoice::Skip => "skipped"@,
    }
}

/// `new` is `old` with one more element at the end.
pub open spec fn appended<T>(new: Seq<T>, old: Seq<T>) -> bool {
    new.len() > 0 && new == old.push(new.last())
}

pub open spec fn is_error(a: ErrorAction, beads_id: Seq<char>, msg: Seq<char>) -> bool {
    a.beads_id@ == beads_id && a.error@ == msg
}

pub open spec fn is_update(
    a: UpdateAction,
    e: MappingEntry,
    old_value: Seq<char>,
    new_value: Seq<char>,
    direction: Seq<char>,
) -> bool {
    &&& a.beads_id@ == e.beads_id@
    &&& a.monday_item_id@ == e.monday_item_id@
    &&& a.field@ == "status"@
    &&& a.old_value@ == old_value
    &&& a.new_value@ == new_value
    &&& a.direction@ == direction
}

pub open spec fn is_conflict(
    a: ConflictAction,
    e: MappingEntry,
    beads_value: Seq<char>,
    monday_value: Seq<char>,
    resolved: Seq<char>,
) -> bool {
    &&& a.beads_id@ == e.beads_id@
    &&& a.monday_item_id@ == e.monday_item_id@
    &&& a.field@ == "status"@
    &&& a.beads_value@ == beads_value
    &&& a.monday_value@ == monday_value
    &&& a.resolved@ == resolved
}

/// Only one error was added.
pub open spec fn added_error(old: UpdateResult, new: UpdateResult, beads_id: Seq<char>, msg: Seq<char>) -> bool {
    &&& appended(new.errors@, old.errors@)
    &&& is_error(new.errors@.last(), beads_id, msg)
    &&& new.updated == old.updated
    &&& new.conflicts == old.conflicts
    &&& new.unchanged == old.unchanged
}

/// What `sync update` records for one link, given what was fetched for it.
pub open spec fn update_record(
    old: UpdateResult,
    new: UpdateResult,
    cfg: Config,
    col: Option<Seq<char>>,
    direction: Seq<char>,
    choice: ConflictChoice,
    e: MappingEntry,
    beads: Result<BeadsIssue, String>,
    monday: MondayLookup,
) -> bool {
    match beads {
        Err(msg) => added_error(old, new, e.beads_id@, "beads issue not found: "@ + msg@),
        Ok(issue) => match monday {
            MondayLookup::Missing => added_error(
                old,
                new,
                e.beads_id@,
                "monday item "@ + e.monday_item_id@ + " not found (deleted?)"@,
            ),
            MondayLookup::Failed(msg) => added_error(old, new, e.beads_id@, "monday API error: "@ + msg@),
            MondayLookup::Found(item) => {
                let mbs = monday_beads_status(cfg, col, item);
                let bs = issue.status@;
                if !status_drift(mbs, bs) && item.name@ == issue.title@ {
                    &&& appended(new.unchanged@, old.unchanged@)
                    &&& new.unchanged@.last()@ == e.beads_id@
                    &&& new.updated == old.updated
                    &&& new.conflicts == old.conflicts
                    &&& new.errors == old.errors
                } else if status_drift(mbs, bs) && pushes(direction) && pulls(direction) {
                    &&& appended(new.conflicts@, old.conflicts@)
                    &&& is_conflict(new.conflicts@.last(), e, bs, mbs, resolution_text(choice))
                    &&& new.updated == old.updated
                    &&& new.unchanged == old.unchanged
                    &&& new.errors == old.errors
                } else if status_drift(mbs, bs) && pushes(direction) {
                    &&& appended(new.updated@, old.updated@)
                    &&& is_update(new.updated@.last(), e, mbs, bs, "push"@)
                    &&& new.conflicts == old.conflicts
                    &&& new.unchanged == old.unchanged
                    &&& new.errors == old.errors
                } else if status_drift(mbs, bs) && pulls(direction) {
                    &&& appended(new.updated@, old.updated@)
                    &&& is_update(new.updated@.last(), e, bs, mbs, "pull"@)
                    &&& new.conflicts == old.conflicts
                    &&& new.unchanged == old.unchanged
                    &&& new.errors == old.errors
                } else {
                    new == old
                }
            },
        },
    }
}

/// Both sides were fetched and something differs: the link gets a new
/// `last_synced` stamp.
pub open spec fn link_refreshed(cfg: Config, col: Option<Seq<char>>, beads: Result<BeadsIssue, String>, monday: MondayLookup) -> bool {
    match (beads, monday) {
        (Ok(issue), MondayLookup::Found(item)) => status_drift(monday_beads_status(cfg, col, item), issue.status@)
            || item.name@ != issue.title@,
        _ => false,
    }
}

/// The statuses differ and the update writes the beads status to monday.com.
pub open spec fn pushes_status(
    cfg: Config,
    col: Option<Seq<char>>,
    direction: Seq<char>,
    choice: ConflictChoice,
    beads: Result<BeadsIssue, String>,
    monday: MondayLookup,
) -> bool {
    match (beads, monday) {
        (Ok(issue), MondayLookup::Found(item)) => status_drift(monday_beads_status(cfg, col, item), issue.status@)
            && pushes(direction) && (!pulls(direction) || choice == ConflictChoice::Beads),
        _ => false,
    }
}

/// The statuses differ and the update writes the monday.com status to beads.
pub open spec fn pulls_status(
    cfg: Config,
    col: Option<Seq<char>>,
    direction: Seq<char>,
    choice: ConflictChoice,
    beads: Result<BeadsIssue, String>,
    monday: MondayLookup,
) -> bool {
    match (beads, monday) {
        (Ok(issue), MondayLookup::Found(item)) => status_drift(monday_beads_status(cfg, col, item), issue.status@)
            && pulls(direction) && (!pushes(direction) || choice == ConflictChoice::Monday),
        _ => false,
    }
}

/// The status conflicts: it differs on both sides and both directions are
/// asked for.
pub open spec fn status_conflict(
    cfg: Config,
    col: Option<Seq<char>>,
    direction: Seq<char>,
    beads: Result<BeadsIssue, String>,
    monday: MondayLookup,
) -> bool {
    match (beads, monday) {
        (Ok(issue), MondayLookup::Found(item)) => status_drift(monday_beads_status(cfg, col, item), issue.status@)
            && pushes(direction) && pulls(direction),
        _ => false,
    }
}

/// A status write to an existing monday.com item.
#[derive(Debug)]
pub struct StatusPush {
    pub board_id: u64,
    pub item_id: String,
    pub values: ColumnValues,
}

/// The writes that one step of `sync update` asks for, and the stamp it
/// gave the link.
#[derive(Debug)]
pub struct EntryEffects {
    pub monday: Option<StatusPush>,
    pub beads: Option<BdCommand>,
    pub synced_at: Option<String>,
}

/// The `bd` command that sets a pulled status: `close` for "closed",
/// `update --status` otherwise.
pub open spec fn pull_command_texts(beads_id: Seq<char>, status: Seq<char>) -> Seq<Seq<char>> {
    if status == "closed"@ {
        seq!["close"@, beads_id, "--json"@, "--reason"@, "synced from monday.com"@]
    } else {
        seq!["update"@, beads_id, "--status"@, status, "--json"@]
    }
}

/// The `bd` command that gives a beads issue a status pulled from monday.com.
pub fn pull_status_command(bd: &BeadsCli, beads_id: &str, status: &str) -> (c: BdCommand)
    ensures
        c.texts() == pull_command_texts(beads_id@, status@),
{
    if text_eq(status, "closed") {
        bd.close(beads_id, Some("synced from monday.com"))
    } else {
        bd.update_status(beads_id, status)
    }
}

/// Whether the current link is a status conflict, where an interactive
/// update asks which side wins.
pub fn is_status_conflict(
    cfg: &Config,
    status: &Option<StatusColumn>,
    direction: &str,
    beads: &Result<BeadsIssue, String>,
    monday: &MondayLookup,
) -> (r: bool)
    ensures
        r == status_conflict(*cfg, status_col_id(*status), direction@, *beads, *monday),
{
    match (beads, monday) {
        (Ok(issue), MondayLookup::Found(item)) => {
            let mbs = monday_status_as_beads(cfg, status, item);
            let differ = mbs.unicode_len() > 0 && !text_eq(mbs.as_str(), issue.status.as_str());
            let push = text_eq(direction, "push") || text_eq(direction, "both");
            let pull = text_eq(direction, "pull") || text_eq(direction, "both");
            differ && push && pull
        },
        _ => false,
    }
}

fn error_action(beads_id: &String, msg: String) -> (a: ErrorAction)
    ensures
        is_error(a, beads_id@, msg@),
{
    ErrorAction { beads_id: beads_id.clone(), error: msg }
}

fn status_update_action(e: &MappingEntry, old_value: &String, new_value: &String, direction: &str) -> (a:
    UpdateAction)
    ensures
        is_update(a, *e, old_value@, new_value@, direction@),
{
    UpdateAction {
        beads_id: e.beads_id.clone(),
        monday_item_id: e.monday_item_id.clone(),
        field: String::from_str("status"),
        old_value: old_value.clone(),
        new_value: new_value.clone(),
        direction: String::from_str(direction),
    }
}

fn resolution(choice: ConflictChoice) -> (r: String)
    ensures
        r@ == resolution_text(choice),
{
    match choice {
        ConflictChoice::Beads => String::from_str("beads_wins"),
        ConflictChoice::Monday => String::from_str("monday_wins"),
        ConflictChoice::Skip => String::from_str("skipped"),
    }
}

/// The registry holds the same links as the snapshot, in the same order;
/// only their `last_synced` stamps may differ.
pub open spec fn same_links_but_stamps(reg: Seq<MappingEntry>, snap: Seq<MappingEntry>) -> bool {
    &&& reg.len() == snap.len()
    &&& forall|k: int|
        0 <= k < snap.len() ==> {
            &&& (#[trigger] reg[k]).beads_id == snap[k].beads_id
            &&& reg[k].monday_item_id == snap[k].monday_item_id
            &&& reg[k].is_subitem == snap[k].is_subitem
            &&& reg[k].parent_monday_id == snap[k].parent_monday_id
        }
}

/// Restamping the link at position `k` of the snapshot keeps the registry's
/// links as they were, when no beads id is linked twice.
pub proof fn lemma_restamp_keeps_links(reg: Seq<MappingEntry>, snap: Seq<MappingEntry>, k: int, s: String)
    requires
        beads_ids_unique(snap),
        same_links_but_stamps(reg, snap),
        0 <= k < snap.len(),
    ensures
        same_links_but_stamps(upserted(reg, MappingEntry { last_synced: s, ..snap[k] }), snap),
{
    let e = MappingEntry { last_synced: s, ..snap[k] };
    let p = has_beads_id(e.beads_id@);
    assert(reg[k].beads_id == snap[k].beads_id);
    assert forall|j: int| 0 <= j < k implies !p(#[trigger] reg[j]) by {
        assert(reg[j].beads_id == snap[j].beads_id);
        assert(snap[j].beads_id@ != snap[k].beads_id@);
    }
    lemma_first_match_found(reg, p, k);
    let r = upserted(reg, e);
    assert(r == reg.update(k, e));
    assert forall|j: int| 0 <= j < snap.len() implies {
        &&& (#[trigger] r[j]).beads_id == snap[j].beads_id
        &&& r[j].monday_item_id == snap[j].monday_item_id
        &&& r[j].is_subitem == snap[j].is_subitem
        &&& r[j].parent_monday_id == snap[j].parent_monday_id
    } by {
        assert(reg[j].beads_id == snap[j].beads_id);
    }
}

/// A pass of `sync update` over the links as they were when it started.
pub struct UpdateRun {
    mapping: SyncMapping,
    entries: Vec<MappingEntry>,
    next: usize,
    result: UpdateResult,
}

impl UpdateRun {
    /// The registry as the run has left it so far.
    pub closed spec fn registry(&self) -> SyncMapping {
        self.mapping
    }

    /// The links the run goes over.
    pub closed spec fn snapshot(&self) -> Seq<MappingEntry> {
        self.entries@
    }

    /// How many links the run has gone over.
    pub closed spec fn done(&self) -> int {
        self.next as int
    }

    /// What the run has recorded so far.
    pub closed spec fn recorded(&self) -> UpdateResult {
        self.result
    }

    /// Every link the run goes over is still in the registry.
    pub closed spec fn wf(&self) -> bool {
        &&& self.next <= self.entries@.len()
        &&& forall|k: int|
            0 <= k < self.entries@.len() ==> any_match(
                self.mapping.entries@,
                has_beads_id(#[trigger] self.entries@[k].beads_id@),
            )
    }

    /// Starts a pass over the registry's links.
    pub fn start(mapping: SyncMapping) -> (r: Self)
        ensures
            r.wf(),
            r.registry() == mapping,
            r.snapshot() == mapping.entries@,
            same_links_but_stamps(r.registry().entries@, r.snapshot()),
            r.done() == 0,
            r.recorded().updated@.len() == 0,
            r.recorded().conflicts@.len() == 0,
            r.recorded().unchanged@.len() == 0,
            r.recorded().errors@.len() == 0,
    {
        let entries = clone_entries(&mapping.entries);
        let r = UpdateRun { mapping, entries, next: 0, result: UpdateResult::new() };
        assert forall|k: int| 0 <= k < r.entries@.len() implies any_match(
            r.mapping.entries@,
            has_beads_id(#[trigger] r.entries@[k].beads_id@),
        ) by {
            assert(has_beads_id(r.entries@[k].beads_id@)(r.mapping.entries@[k]));
        }
        r
    }

    /// The link to handle next, if any is left.
    pub fn current(&self) -> (r: Option<&MappingEntry>)
        requires
            self.wf(),
        ensures
            self.done() < self.snapshot().len() ==> r == Some(&self.snapshot()[self.done()]),
            self.done() >= self.snapshot().len() ==> r is None,
    {
        if self.next < self.entries.len() {
            Some(&self.entries[self.next])
        } else {
            None
        }
    }

    /// What the run has recorded so far.
    pub fn result(&self) -> (r: &UpdateResult)
        ensures
            *r == self.recorded(),
    {
        &self.result
    }

    /// The registry as the run has left it so far.
    pub fn mapping(&self) -> (r: &SyncMapping)
        ensures
            *r == self.registry(),
    {
        &self.mapping
    }

    /// Ends the run, handing back the registry and the record.
    pub fn finish(self) -> (r: (SyncMapping, UpdateResult))
        ensures
            r.0 == self.registry(),
            r.1 == self.recorded(),
    {
        (self.mapping, self.result)
    }

    /// Handles the current link, given what `bd show` and the monday.com item
    /// query gave for it: records the outcome, stamps the link when something
    /// differed, and says which status writes to make. A push needs a
    /// configured board: without one the whole update stops with
    /// `MissingBoardId` and the run is left unchanged. The run never links or
    /// unlinks anything: when no beads id is linked twice, the registry keeps
    /// the snapshot's links in order and changes only their stamps.
    pub fn step(
        &mut self,
        cfg: &Config,
        status: &Option<StatusColumn>,
        bd: &BeadsCli,
        direction: &str,
        choice: ConflictChoice,
        beads: &Result<BeadsIssue, String>,
        monday: &MondayLookup,
    ) -> (r: Result<EntryEffects, ConfigError>)
        requires
            old(self).wf(),
            old(self).done() < old(self).snapshot().len(),
        ensures
            ({
                let e = old(self).snapshot()[old(self).done()];
                let issue_status = match *beads {
                    Ok(issue) => issue.status@,
                    Err(_) => Seq::empty(),
                };
                let item_status = match *monday {
                    MondayLookup::Found(item) => monday_beads_status(*cfg, status_col_id(*status), item),
                    _ => Seq::empty(),
                };
                &&& (r is Err <==> (pushes_status(*cfg, status_col_id(*status), direction@, choice, *beads, *monday)
                    && cfg.board_id is None))
                &&& r is Err ==> r == Err::<EntryEffects, ConfigError>(ConfigError::MissingBoardId)
                    && *final(self) == *old(self)
                &&& r is Ok ==> {
                    let fx = r->Ok_0;
                    &&& final(self).wf()
                    &&& final(self).snapshot() == old(self).snapshot()
                    &&& final(self).done() == old(self).done() + 1
                    &&& update_record(
                        old(self).recorded(),
                        final(self).recorded(),
                        *cfg,
                        status_col_id(*status),
                        direction@,
                        choice,
                        e,
                        *beads,
                        *monday,
                    )
                    &&& final(self).registry().board_id == old(self).registry().board_id
                    &&& (beads_ids_unique(old(self).snapshot()) && same_links_but_stamps(
                        old(self).registry().entries@,
                        old(self).snapshot(),
                    )) ==> same_links_but_stamps(final(self).registry().entries@, final(self).snapshot())
                    &&& linked_beads_ids(final(self).registry().entries@) == linked_beads_ids(
                        old(self).registry().entries@,
                    )
                    &&& (link_refreshed(*cfg, status_col_id(*status), *beads, *monday) <==> fx.synced_at is Some)
                    &&& fx.synced_at matches Some(s) ==> final(self).registry().entries@ == upserted(
                        old(self).registry().entries@,
                        MappingEntry { last_synced: s, ..e },
                    )
                    &&& fx.synced_at is None ==> final(self).registry() == old(self).registry()
                    &&& (fx.monday is Some <==> (pushes_status(
                        *cfg,
                        status_col_id(*status),
                        direction@,
                        choice,
                        *beads,
                        *monday,
                    ) && status is Some && index_for_label(
                        status->0.labels@,
                        label_for_status(cfg.status_map@, issue_status),
                    ) is Some))
                    &&& fx.monday matches Some(p) ==> {
                        &&& cfg.board_id == Some(p.board_id)
                        &&& p.item_id@ == e.monday_item_id@
                        &&& p.values@ == seq![
                            (
                                status->0.id@,
                                SettingView::Index(
                                    index_for_label(
                                        status->0.labels@,
                                        label_for_status(cfg.status_map@, issue_status),
                                    )->0,
                                ),
                            ),
                        ]
                    }
                    &&& (fx.beads is Some <==> pulls_status(*cfg, status_col_id(*status), direction@, choice, *beads, *monday))
                    &&& fx.beads matches Some(c) ==> c.texts() == pull_command_texts(
                        e.beads_id@,
                        item_status,
                    )
                }
            }),
    {
        let ghost old_run = *self;
        let n = self.entries.len();
        assert(self.next < n);
        let e = &self.entries[self.next];
        let issue = match beads {
            Err(msg) => {
                let m = join2("beads issue not found: ", msg.as_str());
                let a = error_action(&e.beads_id, m);
                self.result.errors.push(a);
                self.next = self.next + 1;
                return Ok(EntryEffects { monday: None, beads: None, synced_at: None });
            },
            Ok(issue) => issue,
        };
        let item = match monday {
            MondayLookup::Missing => {
                let m1 = join2("monday item ", e.monday_item_id.as_str());
                let m = join2(m1.as_str(), " not found (deleted?)");
                let a = error_action(&e.beads_id, m);
                self.result.errors.push(a);
                self.next = self.next + 1;
                return Ok(EntryEffects { monday: None, beads: None, synced_at: None });
            },
            MondayLookup::Failed(msg) => {
                let m = join2("monday API error: ", msg.as_str());
                let a = error_action(&e.beads_id, m);
                self.result.errors.push(a);
                self.next = self.next + 1;
                return Ok(EntryEffects { monday: None, beads: None, synced_at: None });
            },
            MondayLookup::Found(item) => item,
        };
        let mbs = monday_status_as_beads(cfg, status, item);
        let bs = &issue.status;
        let status_label = cfg.status_label(bs.as_str());
        let statuses_differ = mbs.unicode_len() > 0 && !text_eq(mbs.as_str(), bs.as_str());
        let names_differ = !text_eq(item.name.as_str(), issue.title.as_str());
        if !statuses_differ && !names_differ {
            self.result.unchanged.push(e.beads_id.clone());
            self.next = self.next + 1;
            return Ok(EntryEffects { monday: None, beads: None, synced_at: None });
        }
        let do_push = text_eq(direction, "push") || text_eq(direction, "both");
        let do_pull = text_eq(direction, "pull") || text_eq(direction, "both");
        let mut push_wanted = false;
        let mut pull_wanted = false;
        if statuses_differ {
            if do_push && do_pull {
                match choice {
                    ConflictChoice::Beads => {
                        push_wanted = true;
                    },
                    ConflictChoice::Monday => {
                        pull_wanted = true;
                    },
                    ConflictChoice::Skip => {},
                }
            } else if do_push {
                push_wanted = true;
            } else if do_pull {
                pull_wanted = true;
            }
        }
        let mut monday_effect: Option<StatusPush> = None;
        if push_wanted {
            let board_id = match cfg.board_id {
                Some(b) => b,
                None => {
                    return Err(ConfigError::MissingBoardId);
                },
            };
            if let Some(sc) = status {
                if let Some(i) = status_index_for_label(&sc.labels, status_label.as_str()) {
                    let mut values = ColumnValues::new();
                    values.set(sc.id.clone(), ColumnSetting::Index(i));
                    proof {
                        crate::search::lemma_first_match_none(
                            Seq::<(Seq<char>, SettingView)>::empty(),
                            crate::sync::values::setting_for(sc.id@),
                        );
                    }
                    assert(values@ =~= seq![(sc.id@, SettingView::Index(i))]);
                    monday_effect = Some(
                        StatusPush { board_id, item_id: e.monday_item_id.clone(), values },
                    );
                }
            }
        }
        let mut beads_effect: Option<BdCommand> = None;
        if pull_wanted {
            beads_effect = Some(pull_status_command(bd, e.beads_id.as_str(), mbs.as_str()));
        }
        if statuses_differ {
            if do_push && do_pull {
                let c = ConflictAction {
                    beads_id: e.beads_id.clone(),
                    monday_item_id: e.monday_item_id.clone(),
                    field: String::from_str("status"),
                    beads_value: bs.clone(),
                    monday_value: mbs.clone(),
                    resolved: resolution(choice),
                };
                self.result.conflicts.push(c);
            } else if do_push {
                let a = status_update_action(e, &mbs, bs, "push");
                self.result.updated.push(a);
            } else if do_pull {
                let a = status_update_action(e, bs, &mbs, "pull");
                self.result.updated.push(a);
            }
        }
        let entry = e.clone();
        proof {
            assert(any_match(old_run.mapping.entries@, has_beads_id(entry.beads_id@)));
        }
        let stamp = self.mapping.refresh(&entry);
        proof {
            if beads_ids_unique(old_run.entries@) && same_links_but_stamps(
                old_run.mapping.entries@,
                old_run.entries@,
            ) {
                lemma_restamp_keeps_links(
                    old_run.mapping.entries@,
                    old_run.entries@,
                    old_run.next as int,
                    stamp,
                );
            }
            lemma_add_linked_keeps_id_set(old_run.mapping, MappingEntry { last_synced: stamp, ..entry });
            assert forall|k: int| 0 <= k < self.entries@.len() implies any_match(
                self.mapping.entries@,
                has_beads_id(#[trigger] self.entries@[k].beads_id@),
            ) by {
                let id = self.entries@[k].beads_id@;
                assert(linked_beads_ids(old_run.mapping.entries@).contains(id));
                assert(linked_beads_ids(self.mapping.entries@).contains(id));
            }
        }
        self.next = self.next + 1;
        Ok(EntryEffects { monday: monday_effect, beads: beads_effect, synced_at: Some(stamp) })
    }
}

// ---------------------------------------------------------------------------
// `sync status`
// ---------------------------------------------------------------------------

/// A link whose statuses differ.
#[derive(Debug)]
pub struct DriftAction {
    pub beads_id: String,
    pub monday_item_id: String,
    pub field: String,
    pub beads_value: String,
    pub monday_value: String,
}

/// The read-only report of `sync status`.
#[derive(Debug)]
pub struct StatusReport {
    pub total_linked: usize,
    pub in_sync: u64,
    pub drifted: Vec<DriftAction>,
    pub errors: Vec<ErrorAction>,
}

/// The link is in sync: the monday.com status is empty or is the beads status.
pub open spec fn in_sync(cfg: Config, col: Option<Seq<char>>, issue: BeadsIssue, item: Item) -> bool {
    let mbs = monday_beads_status(cfg, col, item);
    mbs == issue.status@ || mbs.len() == 0
}

impl StatusReport {
    /// A report on `total_linked` links with nothing counted yet.
    pub fn new(total_linked: usize) -> (r: Self)
        ensures
            r.total_linked == total_linked,
            r.in_sync == 0,
            r.drifted@.len() == 0,
            r.errors@.len() == 0,
    {
        StatusReport { total_linked, in_sync: 0, drifted: Vec::new(), errors: Vec::new() }
    }

    /// How many links have been counted.
    pub open spec fn counted(&self) -> int {
        self.in_sync + self.drifted@.len() + self.errors@.len()
    }

    /// Counts one link, given what was fetched for it: an error when either
    /// side could not be read, in sync when the monday.com status is empty or
    /// equal to the beads status, drifted otherwise.
    pub fn record(
        &mut self,
        cfg: &Config,
        status: &Option<StatusColumn>,
        entry: &MappingEntry,
        beads: &Result<BeadsIssue, String>,
        monday: &MondayLookup,
    )
        requires
            old(self).in_sync < u64::MAX,
        ensures
            final(self).total_linked == old(self).total_linked,
            final(self).counted() == old(self).counted() + 1,
            match (*beads, *monday) {
                (Err(msg), _) => {
                    &&& appended(final(self).errors@, old(self).errors@)
                    &&& is_error(final(self).errors@.last(), entry.beads_id@, "beads issue not found: "@ + msg@)
                    &&& final(self).in_sync == old(self).in_sync
                    &&& final(self).drifted == old(self).drifted
                },
                (Ok(_), MondayLookup::Missing) => {
                    &&& appended(final(self).errors@, old(self).errors@)
                    &&& is_error(
                        final(self).errors@.last(),
                        entry.beads_id@,
                        "monday item "@ + entry.monday_item_id@ + " not found (deleted?)"@,
                    )
                    &&& final(self).in_sync == old(self).in_sync
                    &&& final(self).drifted == old(self).drifted
                },
                (Ok(_), MondayLookup::Failed(msg)) => {
                    &&& appended(final(self).errors@, old(self).errors@)
                    &&& is_error(final(self).errors@.last(), entry.beads_id@, "monday API error: "@ + msg@)
                    &&& final(self).in_sync == old(self).in_sync
                    &&& final(self).drifted == old(self).drifted
                },
                (Ok(issue), MondayLookup::Found(item)) => if in_sync(*cfg, status_col_id(*status), issue, item) {
                    final(self).in_sync == old(self).in_sync + 1 && final(self).drifted == old(self).drifted
                        && final(self).errors == old(self).errors
                } else {
                    let d = final(self).drifted@.last();
                    &&& appended(final(self).drifted@, old(self).drifted@)
                    &&& d.beads_id@ == entry.beads_id@
                    &&& d.monday_item_id@ == entry.monday_item_id@
                    &&& d.field@ == "status"@
                    &&& d.beads_value@ == issue.status@
                    &&& d.monday_value@ == monday_beads_status(*cfg, status_col_id(*status), item)
                    &&& final(self).in_sync == old(self).in_sync
                    &&& final(self).errors == old(self).errors
                },
            },
    {
        let issue = match beads {
            Err(msg) => {
                let m = join2("beads issue not found: ", msg.as_str());
                self.errors.push(error_action(&entry.beads_id, m));
                return;
            },
            Ok(issue) => issue,
        };
        let item = match monday {
            MondayLookup::Missing => {
                let m1 = join2("monday item ", entry.monday_item_id.as_str());
                let m = join2(m1.as_str(), " not found (deleted?)");
                self.errors.push(error_action(&entry.beads_id, m));
                return;
            },
            MondayLookup::Failed(msg) => {
                let m = join2("monday API error: ", msg.as_str());
                self.errors.push(error_action(&entry.beads_id, m));
                return;
            },
            MondayLookup::Found(item) => item,
        };
        let mbs = monday_status_as_beads(cfg, status, item);
        if text_eq(mbs.as_str(), issue.status.as_str()) || mbs.unicode_len() == 0 {
            self.in_sync = self.in_sync + 1;
        } else {
            self.drifted.push(
                DriftAction {
                    beads_id: entry.beads_id.clone(),
                    monday_item_id: entry.monday_item_id.clone(),
                    field: String::from_str("status"),
                    beads_value: issue.status.clone(),
                    monday_value: mbs,
                },
            );
        }
    }
}

/// A link with what `bd show` and the monday.com item query gave for it.
pub type Fetched = (MappingEntry, Result<BeadsIssue, String>, MondayLookup);

/// The error a link is counted as when either side could not be read: the
/// beads id and the message, as `record` writes them.
pub open spec fn fetch_error(f: Fetched) -> Option<(Seq<char>, Seq<char>)> {
    match (f.1, f.2) {
        (Err(msg), _) => Some((f.0.beads_id@, "beads issue not found: "@ + msg@)),
        (Ok(_), MondayLookup::Missing) => Some(
            (f.0.beads_id@, "monday item "@ + f.0.monday_item_id@ + " not found (deleted?)"@),
        ),
        (Ok(_), MondayLookup::Failed(msg)) => Some((f.0.beads_id@, "monday API error: "@ + msg@)),
        _ => None,
    }
}

/// The drift a link is counted as when both sides were read and the
/// statuses differ: beads id, item id, field, beads status, monday.com
/// status in beads terms.
pub open spec fn fetch_drift(cfg: Config, col: Option<Seq<char>>, f: Fetched) -> Option<
    (Seq<char>, Seq<char>, Seq<char>, Seq<char>, Seq<char>),
> {
    match (f.1, f.2) {
        (Ok(issue), MondayLookup::Found(item)) => if in_sync(cfg, col, issue, item) {
            None
        } else {
            Some(
                (
                    f.0.beads_id@,
                    f.0.monday_item_id@,
                    "status"@,
                    issue.status@,
                    monday_beads_status(cfg, col, item),
                ),
            )
        },
        _ => None,
    }
}

/// Both sides of the link were read and agree.
pub open spec fn fetch_in_sync(cfg: Config, col: Option<Seq<char>>, f: Fetched) -> bool {
    match (f.1, f.2) {
        (Ok(issue), MondayLookup::Found(item)) => in_sync(cfg, col, issue, item),
        _ => false,
    }
}

/// The drifts of the links, in order.
pub open spec fn drifts_of(cfg: Config, col: Option<Seq<char>>, s: Seq<Fetched>) -> Seq<
    (Seq<char>, Seq<char>, Seq<char>, Seq<char>, Seq<char>),
>
    decreases s.len(),
{
    if s.len() == 0 {
        Seq::empty()
    } else {
        let p = drifts_of(cfg, col, s.drop_last());
        match fetch_drift(cfg, col, s.last()) {
            Some(d) => p.push(d),
            None => p,
        }
    }
}

/// The errors of the links, in order.
pub open spec fn errors_of(s: Seq<Fetched>) -> Seq<(Seq<char>, Seq<char>)>
    decreases s.len(),
{
    if s.len() == 0 {
        Seq::empty()
    } else {
        let p = errors_of(s.drop_last());
        match fetch_error(s.last()) {
            Some(e) => p.push(e),
            None => p,
        }
    }
}

/// How many of the links are in sync.
pub open spec fn in_sync_count(cfg: Config, col: Option<Seq<char>>, s: Seq<Fetched>) -> nat
    decreases s.len(),
{
    if s.len() == 0 {
        0
    } else {
        in_sync_count(cfg, col, s.drop_last()) + if fetch_in_sync(cfg, col, s.last()) {
            1nat
        } else {
            0nat
        }
    }
}

/// The value of a drift entry.
pub open spec fn drift_view(d: DriftAction) -> (Seq<char>, Seq<char>, Seq<char>, Seq<char>, Seq<char>) {
    (d.beads_id@, d.monday_item_id@, d.field@, d.beads_value@, d.monday_value@)
}

/// The value of an error entry.
pub open spec fn error_view(e: ErrorAction) -> (Seq<char>, Seq<char>) {
    (e.beads_id@, e.error@)
}

/// The report of `sync status` over the links, each given with what was
/// fetched for it: each link is counted, in order, exactly as `record`
/// counts it, as in sync, drifted or an error.
pub fn status_report(cfg: &Config, status: &Option<StatusColumn>, fetched: &Vec<Fetched>) -> (r: StatusReport)
    requires
        fetched@.len() < u64::MAX,
    ensures
        r.total_linked == fetched@.len(),
        r.in_sync == in_sync_count(*cfg, status_col_id(*status), fetched@),
        r.drifted@.map_values(|d: DriftAction| drift_view(d)) == drifts_of(*cfg, status_col_id(*status), fetched@),
        r.errors@.map_values(|e: ErrorAction| error_view(e)) == errors_of(fetched@),
        r.in_sync + r.drifted@.len() + r.errors@.len() == r.total_linked,
{
    let n = fetched.len();
    let ghost col = status_col_id(*status);
    let mut report = StatusReport::new(n);
    assert(report.drifted@.map_values(|d: DriftAction| drift_view(d)) =~= drifts_of(*cfg, col, fetched@.subrange(0, 0)));
    assert(report.errors@.map_values(|e: ErrorAction| error_view(e)) =~= errors_of(fetched@.subrange(0, 0)));
    for i in 0..n
        invariant
            n == fetched@.len(),
            n < u64::MAX,
            col == status_col_id(*status),
            report.total_linked == n,
            report.counted() == i,
            report.in_sync <= i,
            report.in_sync == in_sync_count(*cfg, col, fetched@.subrange(0, i as int)),
            report.drifted@.map_values(|d: DriftAction| drift_view(d)) == drifts_of(*cfg, col, fetched@.subrange(0, i as int)),
            report.errors@.map_values(|e: ErrorAction| error_view(e)) == errors_of(fetched@.subrange(0, i as int)),
    {
        let ghost pre = fetched@.subrange(0, i as int);
        let ghost cur = fetched@.subrange(0, i + 1);
        assert(cur.drop_last() =~= pre);
        assert(cur.last() == fetched@[i as int]);
        let ghost old_report = report;
        let (entry, beads, monday) = &fetched[i];
        report.record(cfg, status, entry, beads, monday);
        proof {
            let f = fetched@[i as int];
            assert(f.0 == *entry && f.1 == *beads && f.2 == *monday);
            if report.drifted@.len() > old_report.drifted@.len() {
                assert(report.drifted@.map_values(|d: DriftAction| drift_view(d)) =~= old_report.drifted@.map_values(
                    |d: DriftAction| drift_view(d),
                ).push(drift_view(report.drifted@.last())));
            } else {
                assert(report.drifted@ == old_report.drifted@);
            }
            if report.errors@.len() > old_report.errors@.len() {
                assert(report.errors@.map_values(|e: ErrorAction| error_view(e)) =~= old_report.errors@.map_values(
                    |e: ErrorAction| error_view(e),
                ).push(error_view(report.errors@.last())));
            } else {
                assert(report.errors@ == old_report.errors@);
            }
        }
    }
    assert(fetched@.subrange(0, n as int) =~= fetched@);
    report
}

} // verus!
