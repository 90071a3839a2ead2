//! `sync pull`: monday.com -> beads. A linked item updates its issue's
//! status; an unlinked one creates a beads issue and is linked to it.
//!
//! The queries and `bd` runs happen outside the library; the functions here
//! decide which `bd` command to run and what to record.

use vstd::prelude::*;
use crate::api::types::Item;
use crate::beads::{BdCommand, BeadsCli};
use crate::config::{status_for_label, Config};
use crate::search::{
    any_match, first_match, is_first_match, lemma_first_match_exists, lemma_first_match_found, lemma_first_match_spec,
};
use crate::sync::mapping::{
    clone_entries, clone_opt_string, entry_for_monday, has_beads_id, has_monday_id, link_entry, upserted, MappingEntry,
    SyncMapping,
};
use crate::sync::update::{column_text, column_text_of, pull_command_texts, pull_status_command};
use crate::text::{decimal, join2};

verus! {

#[derive(Debug)]
pub struct PullAction {
    pub beads_id: String,
    pub monday_item_id: String,
    pub name: String,
}

#[derive(Debug)]
pub struct PullResult {
    pub created: Vec<PullAction>,
    pub updated: Vec<PullAction>,
}

impl PullResult {
    pub fn new() -> (r: Self)
        ensures
            r.created@.len() == 0,
            r.updated@.len() == 0,
    {
        PullResult { created: Vec::new(), updated: Vec::new() }
    }

    /// Files a pull under `updated` when the item was linked before it, under
    /// `created` otherwise.
    pub fn record(&mut self, was_linked: bool, action: PullAction)
        ensures
            was_linked ==> final(self).updated@ == old(self).updated@.push(action)
                && final(self).created == old(self).created,
            !was_linked ==> final(self).created@ == old(self).created@.push(action)
                && final(self).updated == old(self).updated,
    {
        if was_linked {
            self.updated.push(action);
        } else {
            self.created.push(action);
        }
    }
}

/// A linked top-level item is pulled as an epic, a linked sub-item as a task.
pub fn pull_issue_type(entry: &MappingEntry) -> (r: String)
    ensures
        r@ == (if entry.is_subitem {
            "task"@
        } else {
            "epic"@
        }),
{
    if entry.is_subitem {
        String::from_str("task")
    } else {
        String::from_str("epic")
    }
}

/// The `bd` command that gives a linked issue the status that the item's
/// status column shows, if the column shows one.
pub open spec fn pulled_status_texts(cfg: Config, beads_id: Seq<char>, item: Item, status_col: Seq<char>) -> Option<
    Seq<Seq<char>>,
> {
    match column_text_of(item, status_col) {
        Some(label) => Some(pull_command_texts(beads_id, status_for_label(cfg.status_map@, label))),
        None => None,
    }
}

/// The status update of a linked issue from its item's status column:
/// `close` when the label stands for "closed", `update --status` otherwise,
/// nothing when the column is empty.
pub fn pulled_status_command(cfg: &Config, bd: &BeadsCli, beads_id: &str, item: &Item, status_col: &str) -> (r:
    Option<BdCommand>)
    ensures
        match r {
            Some(c) => pulled_status_texts(*cfg, beads_id@, *item, status_col@) == Some(c.texts()),
            None => pulled_status_texts(*cfg, beads_id@, *item, status_col@) is None,
        },
{
    match column_text(item, status_col) {
        Some(label) => {
            let status = cfg.monday_label_to_beads_status(label.as_str());
            Some(pull_status_command(bd, beads_id, status.as_str()))
        },
        None => None,
    }
}

/// The arguments of `bd create` for an unlinked item: its name, the issue
/// type, priority 2, and the parent issue when there is one.
pub open spec fn create_issue_texts(name: Seq<char>, issue_type: Seq<char>, parent_beads_id: Option<Seq<char>>) -> Seq<
    Seq<char>,
> {
    seq!["create"@, name, "-t"@, issue_type, "-p"@, decimal(2), "--json"@] + match parent_beads_id {
        Some(p) => seq!["--parent"@, p],
        None => Seq::<Seq<char>>::empty(),
    }
}

/// `bd create` for an unlinked item: its name, the issue type, priority 2,
/// and the parent issue when there is one.
pub fn create_issue_command(bd: &BeadsCli, item: &Item, issue_type: &str, parent_beads_id: Option<&str>) -> (c:
    BdCommand)
    ensures
        c.texts().len() == if parent_beads_id is Some {
            9int
        } else {
            7int
        },
        c.texts()[0] == "create"@,
        c.texts()[1] == item.name@,
        c.texts()[2] == "-t"@,
        c.texts()[3] == issue_type@,
        c.texts()[4] == "-p"@,
        c.texts()[5] == seq!['2'],
        c.texts()[6] == "--json"@,
        parent_beads_id matches Some(p) ==> c.texts()[7] == "--parent"@ && c.texts()[8] == p@,
        c.texts() == create_issue_texts(
            item.name@,
            issue_type@,
            match parent_beads_id {
                Some(p) => Some(p@),
                None => None,
            },
        ),
{
    bd.create(item.name.as_str(), issue_type, 2, parent_beads_id)
}

/// What pulling an item does to beads.
#[derive(Debug)]
pub enum PullRequest {
    /// The item is linked: refresh this link (and its issue's status); no
    /// issue is created.
    Refresh { existing: MappingEntry },
    /// The item is not linked: run this `bd create` once.
    Create { command: BdCommand },
}

/// `r` is what pulling the item does: refresh the item's first link when it
/// is linked, else create a beads issue of the given type (under the parent
/// issue when there is one).
pub open spec fn requested(
    entries: Seq<MappingEntry>,
    item: Item,
    issue_type: Seq<char>,
    parent_beads_id: Option<Seq<char>>,
    r: PullRequest,
) -> bool {
    match entry_for_monday(entries, item.id@) {
        Some(e) => r matches PullRequest::Refresh { existing } && existing == e,
        None => r matches PullRequest::Create { command } && command.texts() == create_issue_texts(
            item.name@,
            issue_type,
            parent_beads_id,
        ),
    }
}

/// What a pull of an item does: refresh the item's first link when it is
/// linked, else create a beads issue of the given type (under the parent
/// issue when there is one).
pub fn pull_request(
    mapping: &SyncMapping,
    bd: &BeadsCli,
    item: &Item,
    issue_type: &str,
    parent_beads_id: Option<&str>,
) -> (r: PullRequest)
    ensures
        requested(
            mapping.entries@,
            *item,
            issue_type@,
            match parent_beads_id {
                Some(p) => Some(p@),
                None => None,
            },
            r,
        ),
{
    match mapping.find_by_monday_id(item.id.as_str()) {
        Some(e) => PullRequest::Refresh { existing: e.clone() },
        None => PullRequest::Create { command: create_issue_command(bd, item, issue_type, parent_beads_id) },
    }
}

/// The error of a pull of a single item that monday.com does not have.
pub fn item_not_found(monday_item_id: &str) -> (r: String)
    ensures
        r@ == "monday item "@ + monday_item_id@ + " not found"@,
{
    let m = join2("monday item ", monday_item_id);
    proof {
        reveal_strlit("monday item ");
        reveal_strlit(" not found");
    }
    join2(m.as_str(), " not found")
}

/// Records the pull of a linked item (stamping its link, keeping its issue,
/// kind and parent) and describes it.
pub fn finish_existing_pull(mapping: &mut SyncMapping, item: &Item, existing: &MappingEntry) -> (a: PullAction)
    ensures
        final(mapping).board_id == old(mapping).board_id,
        exists|stamp: String|
            final(mapping).entries@ == upserted(
                old(mapping).entries@,
                #[trigger] link_entry(
                    existing.beads_id,
                    item.id,
                    existing.is_subitem,
                    existing.parent_monday_id,
                    stamp,
                ),
            ),
        a.beads_id@ == existing.beads_id@,
        a.monday_item_id@ == item.id@,
        a.name@ == item.name@,
{
    let beads_id = existing.beads_id.clone();
    let stamp = mapping.record_link(
        beads_id.clone(),
        item.id.clone(),
        existing.is_subitem,
        clone_opt_string(&existing.parent_monday_id),
    );
    PullAction { beads_id, monday_item_id: item.id.clone(), name: item.name.clone() }
}

/// Records the link of a newly created beads issue (a sub-item link when it
/// was created under a parent) and describes the pull.
pub fn finish_new_pull(
    mapping: &mut SyncMapping,
    item: &Item,
    new_issue_id: String,
    parent_beads_id: Option<&str>,
) -> (a: PullAction)
    ensures
        final(mapping).board_id == old(mapping).board_id,
        exists|stamp: String|
            final(mapping).entries@ == upserted(
                old(mapping).entries@,
                #[trigger] link_entry(new_issue_id, item.id, parent_beads_id is Some, None, stamp),
            ),
        a.beads_id@ == new_issue_id@,
        a.monday_item_id@ == item.id@,
        a.name@ == item.name@,
{
    let stamp = mapping.record_link(new_issue_id.clone(), item.id.clone(), parent_beads_id.is_some(), None);
    PullAction { beads_id: new_issue_id, monday_item_id: item.id.clone(), name: item.name.clone() }
}

/// Once an unlinked item has been linked, looking it up finds that link, so
/// pulling it again updates instead of creating a second issue.
pub proof fn lemma_new_link_found_by_item(m: SyncMapping, e: MappingEntry)
    requires
        !any_match(m.entries@, has_monday_id(e.monday_item_id@)),
    ensures
        entry_for_monday(upserted(m.entries@, e), e.monday_item_id@) == Some(e),
{
    let s = m.entries@;
    let p = has_monday_id(e.monday_item_id@);
    let t = upserted(s, e);
    lemma_first_match_spec(s, has_beads_id(e.beads_id@));
    match first_match(s, has_beads_id(e.beads_id@)) {
        Some(i) => {
            assert forall|j: int| 0 <= j < i implies !p(#[trigger] t[j]) by {
                assert(t[j] == s[j]);
                assert(!(0 <= j < s.len() && p(s[j])));
            }
            assert(is_first_match(t, p, i));
            lemma_first_match_found(t, p, i);
        },
        None => {
            assert forall|j: int| 0 <= j < s.len() implies !p(#[trigger] t[j]) by {
                assert(t[j] == s[j]);
                assert(!(0 <= j < s.len() && p(s[j])));
            }
            assert(is_first_match(t, p, s.len() as int));
            lemma_first_match_found(t, p, s.len() as int);
        },
    }
}

/// How many sub-items the item lists.
pub open spec fn subitem_count(item: Item) -> nat {
    match item.subitems {
        Some(v) => v@.len(),
        None => 0,
    }
}

/// One pull of `sync pull --parent`: the parent item itself (`sub` is None)
/// or its sub-item at that position, with the issue type to create it as
/// and whether it goes under the beads issue that the parent's pull gave.
#[derive(Debug)]
pub struct PullTarget {
    pub sub: Option<usize>,
    pub issue_type: String,
    pub under_parent: bool,
}

/// What `sync pull --parent` pulls, in order: the parent item as an "epic",
/// then each of its sub-items as a "task" under the parent's beads issue.
pub fn pull_parent_targets(item: &Item) -> (r: Vec<PullTarget>)
    ensures
        r@.len() == 1 + subitem_count(*item),
        r@[0].sub is None,
        r@[0].issue_type@ == "epic"@,
        !r@[0].under_parent,
        forall|i: int|
            1 <= i < r@.len() ==> {
                &&& (#[trigger] r@[i]).sub == Some((i - 1) as usize)
                &&& r@[i].issue_type@ == "task"@
                &&& r@[i].under_parent
            },
{
    let mut out: Vec<PullTarget> = Vec::new();
    out.push(PullTarget { sub: None, issue_type: String::from_str("epic"), under_parent: false });
    proof {
        reveal_strlit("epic");
    }
    let n: usize = match &item.subitems {
        Some(v) => v.len(),
        None => 0,
    };
    for k in 0..n
        invariant
            n == subitem_count(*item),
            out@.len() == 1 + k,
            out@[0].sub is None,
            out@[0].issue_type@ == "epic"@,
            !out@[0].under_parent,
            forall|i: int|
                1 <= i < out@.len() ==> {
                    &&& (#[trigger] out@[i]).sub == Some((i - 1) as usize)
                    &&& out@[i].issue_type@ == "task"@
                    &&& out@[i].under_parent
                },
    {
        out.push(PullTarget { sub: Some(k), issue_type: String::from_str("task"), under_parent: true });
        proof {
            reveal_strlit("task");
        }
    }
    out
}

/// The positions, in order, of the first `n` sub-items that have no link.
pub open spec fn unlinked_subitems(entries: Seq<MappingEntry>, subs: Seq<Item>, n: int) -> Seq<usize>
    decreases n,
{
    if n <= 0 {
        Seq::empty()
    } else {
        let prev = unlinked_subitems(entries, subs, n - 1);
        if entry_for_monday(entries, subs[n - 1].id@) is None {
            prev.push((n - 1) as usize)
        } else {
            prev
        }
    }
}

/// The sub-items of a linked item that `sync pull` (with no arguments)
/// discovers: the positions, in order, of those not linked yet, each pulled
/// as a "task" under the item's beads issue.
pub fn subitems_to_pull(mapping: &SyncMapping, item: &Item) -> (r: Vec<usize>)
    ensures
        r@ == match item.subitems {
            Some(v) => unlinked_subitems(mapping.entries@, v@, v@.len() as int),
            None => Seq::<usize>::empty(),
        },
{
    let mut out: Vec<usize> = Vec::new();
    match &item.subitems {
        Some(subs) => {
            let n = subs.len();
            for k in 0..n
                invariant
                    n == subs@.len(),
                    out@ == unlinked_subitems(mapping.entries@, subs@, k as int),
            {
                if mapping.find_by_monday_id(subs[k].id.as_str()).is_none() {
                    out.push(k);
                }
            }
        },
        None => {},
    }
    out
}

/// The pull was filed as `record` files it: under `updated` when the item
/// was linked before it, under `created` otherwise.
pub open spec fn pull_filed(old: PullResult, new: PullResult, was_linked: bool, a: PullAction) -> bool {
    if was_linked {
        new.updated@ == old.updated@.push(a) && new.created == old.created
    } else {
        new.created@ == old.created@.push(a) && new.updated == old.updated
    }
}

/// The positions listed by `unlinked_subitems` are below `n`.
pub proof fn lemma_unlinked_subitems_below(entries: Seq<MappingEntry>, subs: Seq<Item>, n: int)
    requires
        0 <= n <= usize::MAX + 1,
    ensures
        forall|j: int|
            0 <= j < unlinked_subitems(entries, subs, n).len() ==> (#[trigger] unlinked_subitems(entries, subs, n)[j])
                < n,
    decreases n,
{
    if n > 0 {
        lemma_unlinked_subitems_below(entries, subs, n - 1);
        let prev = unlinked_subitems(entries, subs, n - 1);
        let cur = unlinked_subitems(entries, subs, n);
        assert(((n - 1) as usize) as int == n - 1);
        assert forall|j: int| 0 <= j < cur.len() implies (#[trigger] cur[j]) < n by {
            if j < prev.len() {
                assert(cur[j] == prev[j]);
            }
        }
    }
}

/// The sub-items an item lists.
pub open spec fn subitems_of(item: Item) -> Seq<Item> {
    match item.subitems {
        Some(v) => v@,
        None => Seq::empty(),
    }
}

/// The issue type a link's item is pulled as.
pub open spec fn pull_type_of(e: MappingEntry) -> Seq<char> {
    if e.is_subitem {
        "task"@
    } else {
        "epic"@
    }
}

/// What `sync pull` (with no arguments) does next.
#[derive(Debug)]
pub enum PullAllNext {
    /// Fetch the item of the current link and hand it to `entry_fetched`.
    Entry { monday_item_id: String },
    /// Pull the sub-item at this position of the held item under the given
    /// beads issue: ask `sub_request` what to do.
    Sub { index: usize, parent_beads_id: String },
    /// Every link has been gone over.
    Done,
}

/// A pass of `sync pull` over the links as they were when it started; after
/// each pulled item come its sub-items that are not linked yet.
pub struct PullAllRun {
    entries: Vec<MappingEntry>,
    next: usize,
    item: Option<Item>,
    awaiting: bool,
    linked_before: bool,
    subs: Vec<usize>,
    sub_pos: usize,
    parent: String,
    result: PullResult,
}

impl PullAllRun {
    /// The links the run goes over.
    pub closed spec fn snapshot(&self) -> Seq<MappingEntry> {
        self.entries@
    }

    /// How many links the run has gone over.
    pub closed spec fn done(&self) -> int {
        self.next as int
    }

    /// The item last fetched.
    pub closed spec fn fetched(&self) -> Option<Item> {
        self.item
    }

    /// The fetched item of the current link waits for its pull.
    pub closed spec fn awaiting(&self) -> bool {
        self.awaiting
    }

    /// The fetched item was linked when it was handed in.
    pub closed spec fn was_linked(&self) -> bool {
        self.linked_before
    }

    /// The positions of the sub-items still to pull.
    pub closed spec fn pending(&self) -> Seq<usize> {
        self.subs@.subrange(self.sub_pos as int, self.subs@.len() as int)
    }

    /// The beads issue that pending sub-items go under.
    pub closed spec fn parent_beads_id(&self) -> Seq<char> {
        self.parent@
    }

    /// What the run has recorded so far.
    pub closed spec fn recorded(&self) -> PullResult {
        self.result
    }

    pub closed spec fn wf(&self) -> bool {
        &&& self.next <= self.entries@.len()
        &&& self.sub_pos <= self.subs@.len()
        &&& self.awaiting ==> self.item is Some && self.next < self.entries@.len() && self.subs@.len() == 0
        &&& self.subs@.len() > 0 ==> self.item is Some
        &&& forall|j: int|
            0 <= j < self.subs@.len() ==> (#[trigger] self.subs@[j]) < subitems_of(self.item->0).len()
    }

    /// Starts a pass over the registry's links.
    pub fn start(mapping: &SyncMapping) -> (r: Self)
        ensures
            r.wf(),
            !r.awaiting(),
            r.snapshot() == mapping.entries@,
            r.done() == 0,
            r.pending().len() == 0,
            r.recorded().created@.len() == 0,
            r.recorded().updated@.len() == 0,
    {
        PullAllRun {
            entries: clone_entries(&mapping.entries),
            next: 0,
            item: None,
            awaiting: false,
            linked_before: false,
            subs: Vec::new(),
            sub_pos: 0,
            parent: String::new(),
            result: PullResult::new(),
        }
    }

    /// The next thing to do: a pending sub-item first, else the next link.
    pub fn current(&self) -> (r: PullAllNext)
        requires
            self.wf(),
            !self.awaiting(),
        ensures
            self.pending().len() > 0 ==> (r matches PullAllNext::Sub { index, parent_beads_id } && index
                == self.pending()[0] && parent_beads_id@ == self.parent_beads_id()),
            self.pending().len() == 0 && self.done() < self.snapshot().len() ==> (r matches PullAllNext::Entry {
                monday_item_id,
            } && monday_item_id@ == self.snapshot()[self.done()].monday_item_id@),
            self.pending().len() == 0 && self.done() >= self.snapshot().len() ==> r is Done,
    {
        if self.sub_pos < self.subs.len() {
            PullAllNext::Sub { index: self.subs[self.sub_pos], parent_beads_id: self.parent.clone() }
        } else if self.next < self.entries.len() {
            PullAllNext::Entry { monday_item_id: self.entries[self.next].monday_item_id.clone() }
        } else {
            PullAllNext::Done
        }
    }

    /// The item last fetched, whose sub-items are pending.
    pub fn held_item(&self) -> (r: &Option<Item>)
        ensures
            *r == self.fetched(),
    {
        &self.item
    }

    /// Takes what the fetch of the current link's item gave. Nothing found
    /// (or a failed query) moves on to the next link. Otherwise the item is
    /// held and the pull to make is returned: the link's item is pulled as an
    /// "epic" when it is top-level and a "task" when it is a sub-item.
    pub fn entry_fetched(&mut self, mapping: &SyncMapping, bd: &BeadsCli, item: Option<Item>) -> (r: Option<
        PullRequest,
    >)
        requires
            old(self).wf(),
            !old(self).awaiting(),
            old(self).pending().len() == 0,
            old(self).done() < old(self).snapshot().len(),
        ensures
            final(self).wf(),
            final(self).snapshot() == old(self).snapshot(),
            final(self).recorded() == old(self).recorded(),
            final(self).pending().len() == 0,
            match item {
                None => r is None && final(self).done() == old(self).done() + 1 && !final(self).awaiting(),
                Some(it) => {
                    &&& final(self).awaiting()
                    &&& final(self).done() == old(self).done()
                    &&& final(self).fetched() == Some(it)
                    &&& final(self).was_linked() == (entry_for_monday(mapping.entries@, it.id@) is Some)
                    &&& r matches Some(q) && requested(
                        mapping.entries@,
                        it,
                        pull_type_of(old(self).snapshot()[old(self).done()]),
                        None,
                        q,
                    )
                },
            },
    {
        self.subs = Vec::new();
        self.sub_pos = 0;
        match item {
            None => {
                let n = self.entries.len();
                assert(self.next < n);
                self.next = self.next + 1;
                self.item = None;
                self.awaiting = false;
                assert(self.pending() =~= Seq::<usize>::empty());
                None
            },
            Some(it) => {
                let issue_type = pull_issue_type(&self.entries[self.next]);
                let q = pull_request(mapping, bd, &it, issue_type.as_str(), None);
                self.linked_before = mapping.find_by_monday_id(it.id.as_str()).is_some();
                self.item = Some(it);
                self.awaiting = true;
                assert(self.pending() =~= Seq::<usize>::empty());
                Some(q)
            },
        }
    }

    /// Records the pull of the held item: filed under `updated` when it was
    /// linked when it was fetched, else under `created`; an error is skipped.
    /// After an item that the registry now links, its sub-items not linked yet
    /// come next, under that link's beads issue.
    pub fn entry_pulled(&mut self, mapping: &SyncMapping, outcome: Result<PullAction, String>)
        requires
            old(self).wf(),
            old(self).awaiting(),
        ensures
            final(self).wf(),
            !final(self).awaiting(),
            final(self).snapshot() == old(self).snapshot(),
            final(self).done() == old(self).done() + 1,
            final(self).fetched() == old(self).fetched(),
            match outcome {
                Ok(a) => {
                    &&& pull_filed(old(self).recorded(), final(self).recorded(), old(self).was_linked(), a)
                    &&& match entry_for_monday(mapping.entries@, old(self).fetched()->0.id@) {
                        Some(p) => {
                            &&& final(self).pending() == unlinked_subitems(
                                mapping.entries@,
                                subitems_of(old(self).fetched()->0),
                                subitems_of(old(self).fetched()->0).len() as int,
                            )
                            &&& final(self).parent_beads_id() == p.beads_id@
                        },
                        None => final(self).pending().len() == 0,
                    }
                },
                Err(_) => final(self).recorded() == old(self).recorded() && final(self).pending().len() == 0,
            },
    {
        let n = self.entries.len();
        assert(self.next < n);
        self.next = self.next + 1;
        self.awaiting = false;
        self.sub_pos = 0;
        match outcome {
            Ok(a) => {
                self.result.record(self.linked_before, a);
                match &self.item {
                    Some(it) => match mapping.find_by_monday_id(it.id.as_str()) {
                        Some(p) => {
                            self.parent = p.beads_id.clone();
                            let subs = subitems_to_pull(mapping, it);
                            let m: usize = match &it.subitems {
                                Some(v) => v.len(),
                                None => 0,
                            };
                            proof {
                                let v = subitems_of(*it);
                                assert(v.len() == m);
                                lemma_unlinked_subitems_below(mapping.entries@, v, v.len() as int);
                            }
                            self.subs = subs;
                        },
                        None => {},
                    },
                    None => {},
                }
            },
            Err(_) => {},
        }
        assert(self.subs@.subrange(0, self.subs@.len() as int) =~= self.subs@);
    }

    /// What to do with the first pending sub-item: nothing when it has been
    /// linked meanwhile, else create its beads issue as a "task" under the
    /// parent issue.
    pub fn sub_request(&self, mapping: &SyncMapping, bd: &BeadsCli) -> (r: Option<PullRequest>)
        requires
            self.wf(),
            !self.awaiting(),
            self.pending().len() > 0,
        ensures
            ({
                let sub = subitems_of(self.fetched()->0)[self.pending()[0] as int];
                &&& entry_for_monday(mapping.entries@, sub.id@) is Some ==> r is None
                &&& entry_for_monday(mapping.entries@, sub.id@) is None ==> (r matches Some(q) && requested(
                    mapping.entries@,
                    sub,
                    "task"@,
                    Some(self.parent_beads_id()),
                    q,
                ))
            }),
    {
        let k = self.subs[self.sub_pos];
        assert(self.item is Some);
        let it = self.item.as_ref().unwrap();
        match &it.subitems {
            Some(v) => {
                let sub = &v[k];
                if mapping.find_by_monday_id(sub.id.as_str()).is_some() {
                    None
                } else {
                    proof {
                        reveal_strlit("task");
                    }
                    Some(pull_request(mapping, bd, sub, "task", Some(self.parent.as_str())))
                }
            },
            None => None,
        }
    }

    /// Records the pull of the first pending sub-item: created when it went
    /// through; nothing when it was skipped or failed.
    pub fn sub_pulled(&mut self, outcome: Result<PullAction, String>)
        requires
            old(self).wf(),
            !old(self).awaiting(),
            old(self).pending().len() > 0,
        ensures
            final(self).wf(),
            !final(self).awaiting(),
            final(self).snapshot() == old(self).snapshot(),
            final(self).done() == old(self).done(),
            final(self).fetched() == old(self).fetched(),
            final(self).pending() == old(self).pending().drop_first(),
            final(self).parent_beads_id() == old(self).parent_beads_id(),
            match outcome {
                Ok(a) => pull_filed(old(self).recorded(), final(self).recorded(), false, a),
                Err(_) => final(self).recorded() == old(self).recorded(),
            },
    {
        let ghost before = self.pending();
        let n = self.subs.len();
        assert(self.sub_pos < n);
        self.sub_pos = self.sub_pos + 1;
        assert(self.pending() =~= before.drop_first());
        match outcome {
            Ok(a) => self.result.record(false, a),
            Err(_) => {},
        }
    }

    /// Ends the run, handing back the record.
    pub fn finish(self) -> (r: PullResult)
        ensures
            r == self.recorded(),
    {
        self.result
    }
}

/// Once a pull has recorded a link for an item (refreshed or new), pulling
/// the same item again refreshes a link and creates no beads issue.
pub proof fn lemma_pull_again_creates_nothing(
    entries: Seq<MappingEntry>,
    e: MappingEntry,
    item: Item,
    issue_type: Seq<char>,
    parent_beads_id: Option<Seq<char>>,
    r: PullRequest,
)
    requires
        e.monday_item_id@ == item.id@,
        requested(upserted(entries, e), item, issue_type, parent_beads_id, r),
    ensures
        r is Refresh,
{
    let t = upserted(entries, e);
    let p = has_monday_id(item.id@);
    match first_match(entries, has_beads_id(e.beads_id@)) {
        Some(i) => {
            lemma_first_match_spec(entries, has_beads_id(e.beads_id@));
            assert(t[i] == e);
            lemma_first_match_exists(t, p, i);
        },
        None => {
            assert(t[entries.len() as int] == e);
            lemma_first_match_exists(t, p, entries.len() as int);
        },
    }
}

/// The `bd create` of an unlinked item names the item's name as the title,
/// the asked issue type after `-t` and priority 2, whether or not a parent is
/// given, and adds `--parent` with the parent issue exactly when one is.
pub proof fn lemma_create_texts_follow_the_request(
    name: Seq<char>,
    issue_type: Seq<char>,
    parent_beads_id: Option<Seq<char>>,
)
    ensures
        create_issue_texts(name, issue_type, parent_beads_id).len() == if parent_beads_id is Some {
            9int
        } else {
            7int
        },
        create_issue_texts(name, issue_type, parent_beads_id)[0] == "create"@,
        create_issue_texts(name, issue_type, parent_beads_id)[1] == name,
        create_issue_texts(name, issue_type, parent_beads_id)[2] == "-t"@,
        create_issue_texts(name, issue_type, parent_beads_id)[3] == issue_type,
        create_issue_texts(name, issue_type, parent_beads_id)[4] == "-p"@,
        create_issue_texts(name, issue_type, parent_beads_id)[5] == seq!['2'],
        create_issue_texts(name, issue_type, parent_beads_id)[6] == "--json"@,
        parent_beads_id matches Some(p) ==> create_issue_texts(name, issue_type, parent_beads_id)[7] == "--parent"@
            && create_issue_texts(name, issue_type, parent_beads_id)[8] == p,
{
    assert(decimal(2) =~= seq!['2']);
}

} // verus!
