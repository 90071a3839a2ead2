//! The opt-in link registry between beads issues and monday.com items.
//!
//! The registry is a list of entries; lookups return the first entry with the
//! wanted id, and `add` replaces the first entry with the same beads id or
//! appends a new one.

use vstd::prelude::*;
use crate::search::{any_match, first_match, is_first_match, lemma_first_match_found, lemma_first_match_none, lemma_first_match_spec};
use crate::clock::{ends_utc, utc_now_rfc3339};

verus! {

/// One link between a beads issue and a monday.com item.
#[derive(Debug)]
pub struct MappingEntry {
    pub beads_id: String,
    pub monday_item_id: String,
    pub is_subitem: bool,
    pub parent_monday_id: Option<String>,
    pub last_synced: String,
}

/// The link registry, stored as `.beads/monday_sync.json`.
#[derive(Debug)]
pub struct SyncMapping {
    pub board_id: u64,
    pub entries: Vec<MappingEntry>,
}

pub fn clone_opt_string(o: &Option<String>) -> (r: Option<String>)
    ensures
        r == *o,
{
    match o {
        Some(s) => Some(s.clone()),
        None => None,
    }
}

impl Clone for MappingEntry {
    fn clone(&self) -> (r: Self)
        ensures
            r == *self,
    {
        MappingEntry {
            beads_id: self.beads_id.clone(),
            monday_item_id: self.monday_item_id.clone(),
            is_subitem: self.is_subitem,
            parent_monday_id: clone_opt_string(&self.parent_monday_id),
            last_synced: self.last_synced.clone(),
        }
    }
}

pub fn clone_entries(v: &Vec<MappingEntry>) -> (r: Vec<MappingEntry>)
    ensures
        r@ == v@,
{
    let mut out: Vec<MappingEntry> = Vec::new();
    let n = v.len();
    for i in 0..n
        invariant
            n == v@.len(),
            out@ == v@.subrange(0, i as int),
    {
        out.push(v[i].clone());
        assert(out@ =~= v@.subrange(0, i + 1));
    }
    assert(v@.subrange(0, n as int) =~= v@);
    out
}

impl Clone for SyncMapping {
    fn clone(&self) -> (r: Self)
        ensures
            r.board_id == self.board_id,
            r.entries@ == self.entries@,
    {
        let entries = clone_entries(&self.entries);
        SyncMapping { board_id: self.board_id, entries }
    }
}

/// The entry has the given beads id.
pub open spec fn has_beads_id(id: Seq<char>) -> spec_fn(MappingEntry) -> bool {
    |e: MappingEntry| e.beads_id@ == id
}

/// The entry has the given monday.com item id.
pub open spec fn has_monday_id(id: Seq<char>) -> spec_fn(MappingEntry) -> bool {
    |e: MappingEntry| e.monday_item_id@ == id
}

/// The first entry for a beads id.
pub open spec fn entry_for_beads(entries: Seq<MappingEntry>, id: Seq<char>) -> Option<MappingEntry> {
    match first_match(entries, has_beads_id(id)) {
        Some(i) => Some(entries[i]),
        None => None,
    }
}

/// The first entry for a monday.com item id.
pub open spec fn entry_for_monday(entries: Seq<MappingEntry>, id: Seq<char>) -> Option<MappingEntry> {
    match first_match(entries, has_monday_id(id)) {
        Some(i) => Some(entries[i]),
        None => None,
    }
}

/// The entries after recording `e`: it replaces the first entry with its beads
/// id, or is appended when there is none.
pub open spec fn upserted(entries: Seq<MappingEntry>, e: MappingEntry) -> Seq<MappingEntry> {
    match first_match(entries, has_beads_id(e.beads_id@)) {
        Some(i) => entries.update(i, e),
        None => entries.push(e),
    }
}

/// The entries without any entry for the beads id.
pub open spec fn without(entries: Seq<MappingEntry>, id: Seq<char>) -> Seq<MappingEntry> {
    entries.filter(lacks_beads_id(id))
}

/// The entry is not a link of the given beads id.
pub open spec fn lacks_beads_id(id: Seq<char>) -> spec_fn(MappingEntry) -> bool {
    |e: MappingEntry| e.beads_id@ != id
}

/// The beads ids that have a link.
pub open spec fn linked_beads_ids(entries: Seq<MappingEntry>) -> Set<Seq<char>> {
    Set::new(|id: Seq<char>| any_match(entries, has_beads_id(id)))
}

/// No beads id is linked twice.
pub open spec fn beads_ids_unique(entries: Seq<MappingEntry>) -> bool {
    forall|i: int, j: int|
        0 <= i < entries.len() && 0 <= j < entries.len() && i != j ==> #[trigger] entries[i].beads_id@
            != #[trigger] entries[j].beads_id@
}

/// The entry that the registry records for a link made now.
pub open spec fn link_entry(
    beads_id: String,
    monday_item_id: String,
    is_subitem: bool,
    parent_monday_id: Option<String>,
    stamp: String,
) -> MappingEntry {
    MappingEntry { beads_id, monday_item_id, is_subitem, parent_monday_id, last_synced: stamp }
}

impl SyncMapping {
    /// The registry that a missing mapping file stands for.
    pub fn empty() -> (r: Self)
        ensures
            r.board_id == 0,
            r.entries@.len() == 0,
    {
        SyncMapping { board_id: 0, entries: Vec::new() }
    }

    /// A registry without a board takes the configured one (or stays at 0).
    pub fn adopt_board_id(&mut self, configured: Option<u64>)
        ensures
            final(self).entries == old(self).entries,
            final(self).board_id == (if old(self).board_id == 0 {
                match configured {
                    Some(b) => b,
                    None => 0,
                }
            } else {
                old(self).board_id
            }),
    {
        if self.board_id == 0 {
            self.board_id = match configured {
                Some(b) => b,
                None => 0,
            };
        }
    }

    fn position_of_beads_id(&self, id: &str) -> (r: Option<usize>)
        ensures
            r matches Some(i) ==> first_match(self.entries@, has_beads_id(id@)) == Some(i as int),
            r is None ==> first_match(self.entries@, has_beads_id(id@)) is None,
    {
        let n = self.entries.len();
        for i in 0..n
            invariant
                n == self.entries@.len(),
                forall|j: int| 0 <= j < i ==> !has_beads_id(id@)(#[trigger] self.entries@[j]),
        {
            if crate::text::text_eq(self.entries[i].beads_id.as_str(), id) {
                proof {
                    lemma_first_match_found(self.entries@, has_beads_id(id@), i as int);
                }
                return Some(i);
            }
        }
        proof {
            lemma_first_match_none(self.entries@, has_beads_id(id@));
        }
        None
    }

    fn position_of_monday_id(&self, id: &str) -> (r: Option<usize>)
        ensures
            r matches Some(i) ==> first_match(self.entries@, has_monday_id(id@)) == Some(i as int),
            r is None ==> first_match(self.entries@, has_monday_id(id@)) is None,
    {
        let n = self.entries.len();
        for i in 0..n
            invariant
                n == self.entries@.len(),
                forall|j: int| 0 <= j < i ==> !has_monday_id(id@)(#[trigger] self.entries@[j]),
        {
            if crate::text::text_eq(self.entries[i].monday_item_id.as_str(), id) {
                proof {
                    lemma_first_match_found(self.entries@, has_monday_id(id@), i as int);
                }
                return Some(i);
            }
        }
        proof {
            lemma_first_match_none(self.entries@, has_monday_id(id@));
        }
        None
    }

    /// The first link of a beads issue.
    pub fn find_by_beads_id(&self, id: &str) -> (r: Option<&MappingEntry>)
        ensures
            r matches Some(e) ==> entry_for_beads(self.entries@, id@) == Some(*e),
            r is None ==> entry_for_beads(self.entries@, id@) is None,
    {
        match self.position_of_beads_id(id) {
            Some(i) => Some(&self.entries[i]),
            None => None,
        }
    }

    /// The first link of a monday.com item.
    pub fn find_by_monday_id(&self, id: &str) -> (r: Option<&MappingEntry>)
        ensures
            r matches Some(e) ==> entry_for_monday(self.entries@, id@) == Some(*e),
            r is None ==> entry_for_monday(self.entries@, id@) is None,
    {
        match self.position_of_monday_id(id) {
            Some(i) => Some(&self.entries[i]),
            None => None,
        }
    }

    /// Records a link: replaces the first entry with the same beads id, or
    /// appends the entry.
    pub fn add(&mut self, entry: MappingEntry)
        ensures
            final(self).board_id == old(self).board_id,
            final(self).entries@ == upserted(old(self).entries@, entry),
    {
        match self.position_of_beads_id(entry.beads_id.as_str()) {
            Some(i) => {
                self.entries.set(i, entry);
            },
            None => {
                self.entries.push(entry);
            },
        }
    }

    /// Removes every link of a beads issue; `true` when there was one.
    pub fn remove_by_beads_id(&mut self, id: &str) -> (removed: bool)
        ensures
            final(self).board_id == old(self).board_id,
            final(self).entries@ == without(old(self).entries@, id@),
            removed == any_match(old(self).entries@, has_beads_id(id@)),
    {
        let ghost old_entries = self.entries@;
        let ghost keep = lacks_beads_id(id@);
        let n = self.entries.len();
        let mut kept: Vec<MappingEntry> = Vec::new();
        let mut found = false;
        for i in 0..n
            invariant
                n == self.entries@.len(),
                self.entries@ == old_entries,
                keep == lacks_beads_id(id@),
                kept@ == old_entries.subrange(0, i as int).filter(keep),
                found == exists|j: int| 0 <= j < i && has_beads_id(id@)(#[trigger] old_entries[j]),
        {
            reveal_with_fuel(Seq::<_>::filter, 1);
            assert(old_entries.subrange(0, i + 1).drop_last() =~= old_entries.subrange(0, i as int));
            if crate::text::text_eq(self.entries[i].beads_id.as_str(), id) {
                found = true;
            } else {
                kept.push(self.entries[i].clone());
            }
        }
        assert(old_entries.subrange(0, n as int) =~= old_entries);
        self.entries = kept;
        found
    }

    /// Records a link made now, stamped with the current UTC time, which is
    /// returned; the stamp is empty when the system clock cannot be read.
    pub fn record_link(
        &mut self,
        beads_id: String,
        monday_item_id: String,
        is_subitem: bool,
        parent_monday_id: Option<String>,
    ) -> (stamp: String)
        ensures
            stamp@.len() == 0 || ends_utc(stamp@),
            final(self).board_id == old(self).board_id,
            final(self).entries@ == upserted(
                old(self).entries@,
                link_entry(beads_id, monday_item_id, is_subitem, parent_monday_id, stamp),
            ),
    {
        let stamp = match utc_now_rfc3339() {
            Some(s) => s,
            None => String::new(),
        };
        let entry = MappingEntry {
            beads_id,
            monday_item_id,
            is_subitem,
            parent_monday_id,
            last_synced: stamp.clone(),
        };
        self.add(entry);
        stamp
    }

    /// Stamps an existing link with the current time, keeping its ids and
    /// parent.
    pub fn refresh(&mut self, entry: &MappingEntry) -> (stamp: String)
        ensures
            final(self).board_id == old(self).board_id,
            final(self).entries@ == upserted(
                old(self).entries@,
                MappingEntry { last_synced: stamp, ..*entry },
            ),
    {
        self.record_link(
            entry.beads_id.clone(),
            entry.monday_item_id.clone(),
            entry.is_subitem,
            clone_opt_string(&entry.parent_monday_id),
        )
    }
}

// ---------------------------------------------------------------------------
// Laws of the registry.
// ---------------------------------------------------------------------------

/// After a link is recorded, looking up its beads id gives that link.
pub proof fn lemma_add_then_find(m: SyncMapping, e: MappingEntry)
    ensures
        entry_for_beads(upserted(m.entries@, e), e.beads_id@) == Some(e),
{
    let s = m.entries@;
    let p = has_beads_id(e.beads_id@);
    let t = upserted(s, e);
    lemma_first_match_spec(s, p);
    match first_match(s, p) {
        Some(i) => {
            assert(forall|j: int| 0 <= j < i ==> t[j] == s[j]);
            assert(is_first_match(t, p, i));
            lemma_first_match_found(t, p, i);
        },
        None => {
            assert(forall|j: int| 0 <= j < s.len() ==> t[j] == s[j]);
            assert(is_first_match(t, p, s.len() as int));
            lemma_first_match_found(t, p, s.len() as int);
        },
    }
}

/// Recording a link leaves the lookup of every other beads id unchanged.
pub proof fn lemma_add_keeps_other_links(m: SyncMapping, e: MappingEntry, id: Seq<char>)
    requires
        id != e.beads_id@,
    ensures
        entry_for_beads(upserted(m.entries@, e), id) == entry_for_beads(m.entries@, id),
{
    let s = m.entries@;
    let p = has_beads_id(id);
    let t = upserted(s, e);
    lemma_first_match_spec(s, has_beads_id(e.beads_id@));
    assert(forall|j: int| 0 <= j < s.len() ==> (p(t[j]) <==> p(s[j])));
    assert(forall|j: int| 0 <= j < s.len() && p(s[j]) ==> t[j] == s[j]);
    lemma_first_match_spec(s, p);
    match first_match(s, p) {
        Some(i) => {
            assert(is_first_match(t, p, i));
            lemma_first_match_found(t, p, i);
        },
        None => {
            assert forall|j: int| 0 <= j < t.len() implies !p(#[trigger] t[j]) by {
                if j < s.len() {
                    assert(!p(s[j]));
                }
            }
            lemma_first_match_none(t, p);
        },
    }
}

/// Recording a link for an id that has none adds exactly one entry; recording
/// one for a linked id keeps the number of entries.
pub proof fn lemma_add_length(m: SyncMapping, e: MappingEntry)
    ensures
        upserted(m.entries@, e).len() == m.entries@.len() + (if any_match(
            m.entries@,
            has_beads_id(e.beads_id@),
        ) {
            0int
        } else {
            1int
        }),
{
    lemma_first_match_spec(m.entries@, has_beads_id(e.beads_id@));
}

/// Recording a link keeps every beads id linked at most once.
pub proof fn lemma_add_keeps_ids_unique(m: SyncMapping, e: MappingEntry)
    requires
        beads_ids_unique(m.entries@),
    ensures
        beads_ids_unique(upserted(m.entries@, e)),
{
    let s = m.entries@;
    let t = upserted(s, e);
    let p = has_beads_id(e.beads_id@);
    lemma_first_match_spec(s, p);
    match first_match(s, p) {
        Some(i) => {
            assert forall|a: int, b: int|
                0 <= a < t.len() && 0 <= b < t.len() && a != b implies #[trigger] t[a].beads_id@
                != #[trigger] t[b].beads_id@ by {
                if a == i {
                    assert(s[i].beads_id@ == e.beads_id@);
                    assert(s[b].beads_id@ != s[i].beads_id@);
                } else if b == i {
                    assert(s[i].beads_id@ == e.beads_id@);
                    assert(s[a].beads_id@ != s[i].beads_id@);
                }
            }
        },
        None => {
            assert forall|a: int, b: int|
                0 <= a < t.len() && 0 <= b < t.len() && a != b implies #[trigger] t[a].beads_id@
                != #[trigger] t[b].beads_id@ by {
                if a == s.len() {
                    assert(!p(s[b]));
                } else if b == s.len() {
                    assert(!p(s[a]));
                }
            }
        },
    }
}

/// Refreshing or re-recording an already linked beads id keeps the set of
/// linked beads ids.
pub proof fn lemma_add_linked_keeps_id_set(m: SyncMapping, e: MappingEntry)
    requires
        any_match(m.entries@, has_beads_id(e.beads_id@)),
    ensures
        linked_beads_ids(upserted(m.entries@, e)) == linked_beads_ids(m.entries@),
{
    let s = m.entries@;
    let t = upserted(s, e);
    lemma_first_match_spec(s, has_beads_id(e.beads_id@));
    let i = first_match(s, has_beads_id(e.beads_id@))->0;
    assert forall|id: Seq<char>| #[trigger] linked_beads_ids(t).contains(id)
        == linked_beads_ids(s).contains(id) by {
        if any_match(t, has_beads_id(id)) {
            let j = choose|j: int| 0 <= j < t.len() && has_beads_id(id)(#[trigger] t[j]);
            if j == i {
                assert(has_beads_id(id)(s[i]));
            } else {
                assert(has_beads_id(id)(s[j]));
            }
        }
        if any_match(s, has_beads_id(id)) {
            let j = choose|j: int| 0 <= j < s.len() && has_beads_id(id)(#[trigger] s[j]);
            if j == i {
                assert(has_beads_id(id)(t[i]));
            } else {
                assert(has_beads_id(id)(t[j]));
            }
        }
    }
    assert(linked_beads_ids(upserted(m.entries@, e)) =~= linked_beads_ids(m.entries@));
}

/// After a beads id is unlinked, no link of it is left.
pub proof fn lemma_remove_then_find(m: SyncMapping, id: Seq<char>)
    ensures
        entry_for_beads(without(m.entries@, id), id) is None,
        !any_match(without(m.entries@, id), has_beads_id(id)),
{
    let t = without(m.entries@, id);
    assert forall|j: int| 0 <= j < t.len() implies !has_beads_id(id)(#[trigger] t[j]) by {
        m.entries@.lemma_filter_pred(lacks_beads_id(id), j);
    }
    lemma_first_match_none(t, has_beads_id(id));
}

/// Unlinking a beads id right after linking it leaves the registry as it was
/// without that id.
pub proof fn lemma_add_then_remove(m: SyncMapping, e: MappingEntry)
    ensures
        without(upserted(m.entries@, e), e.beads_id@) == without(m.entries@, e.beads_id@),
{
    let s = m.entries@;
    let id = e.beads_id@;
    let keep = lacks_beads_id(id);
    lemma_first_match_spec(s, has_beads_id(id));
    match first_match(s, has_beads_id(id)) {
        Some(i) => {
            lemma_filter_update_dropped(s, keep, i, e);
        },
        None => {
            s.lemma_filter_push(e, keep);
        },
    }
}

proof fn lemma_filter_update_dropped(
    s: Seq<MappingEntry>,
    keep: spec_fn(MappingEntry) -> bool,
    i: int,
    e: MappingEntry,
)
    requires
        0 <= i < s.len(),
        !keep(s[i]),
        !keep(e),
    ensures
        s.update(i, e).filter(keep) == s.filter(keep),
    decreases s.len(),
{
    let t = s.update(i, e);
    reveal_with_fuel(Seq::<_>::filter, 1);
    if i == s.len() - 1 {
        assert(t.drop_last() =~= s.drop_last());
    } else {
        lemma_filter_update_dropped(s.drop_last(), keep, i, e);
        assert(t.drop_last() =~= s.drop_last().update(i, e));
        assert(t.last() == s.last());
    }
}

} // verus!
