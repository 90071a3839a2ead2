//! Resolve column by id or by title (name) so users can set status_column
//! "Status" etc., and resolve status labels to monday.com status column
//! indices for API updates.

use vstd::prelude::*;
use crate::api::types::{Board, BoardWithColumnSettings, Column, ColumnWithSettings};
use crate::search::{first_match, lemma_first_match_found, lemma_first_match_none, lemma_first_match_spec};
use crate::text::{eq_ignore_ascii_case, opt_text, same_ignoring_ascii_case, text_eq, lowercase, lowercased, trim, unicode_trimmed};

verus! {

/// The column's id is `r`.
pub open spec fn column_has_id(r: Seq<char>) -> spec_fn(Column) -> bool {
    |c: Column| c.id@ == r
}

/// The column's title equals `r` up to ASCII case.
pub open spec fn column_titled(r: Seq<char>) -> spec_fn(Column) -> bool {
    |c: Column| same_ignoring_ascii_case(c.title@, r)
}

/// The id of the column that `r` names: a column whose id is `r`, else the
/// first column whose title equals `r` up to ASCII case.
pub open spec fn resolved_column(cols: Seq<Column>, r: Seq<char>) -> Option<Seq<char>> {
    match first_match(cols, column_has_id(r)) {
        Some(i) => Some(cols[i].id@),
        None => match first_match(cols, column_titled(r)) {
            Some(i) => Some(cols[i].id@),
            None => None,
        },
    }
}

/// The id of the column that the reference names: an exact id match wins
/// over a column matched only by its title.
pub fn column_id_in_board(board: &Board, column_ref: &str) -> (r: Option<String>)
    ensures
        opt_text(r) == resolved_column(board.columns@, column_ref@),
{
    let cols = &board.columns;
    let n = cols.len();
    for i in 0..n
        invariant
            n == cols@.len(),
            cols@ == board.columns@,
            forall|j: int| 0 <= j < i ==> !column_has_id(column_ref@)(#[trigger] cols@[j]),
    {
        if text_eq(cols[i].id.as_str(), column_ref) {
            proof {
                lemma_first_match_found(cols@, column_has_id(column_ref@), i as int);
            }
            return Some(cols[i].id.clone());
        }
    }
    proof {
        lemma_first_match_none(cols@, column_has_id(column_ref@));
    }
    for i in 0..n
        invariant
            n == cols@.len(),
            cols@ == board.columns@,
            first_match(cols@, column_has_id(column_ref@)) is None,
            forall|j: int| 0 <= j < i ==> !column_titled(column_ref@)(#[trigger] cols@[j]),
    {
        if eq_ignore_ascii_case(cols[i].title.as_str(), column_ref) {
            proof {
                lemma_first_match_found(cols@, column_titled(column_ref@), i as int);
            }
            return Some(cols[i].id.clone());
        }
    }
    proof {
        lemma_first_match_none(cols@, column_titled(column_ref@));
    }
    None
}

/// The column reference to look up: trimmed, or `None` when nothing is left.
pub fn normalized_column_ref(column_ref: &str) -> (r: Option<String>)
    ensures
        unicode_trimmed(column_ref@).len() == 0 ==> r is None,
        unicode_trimmed(column_ref@).len() != 0 ==> opt_text(r) == Some(unicode_trimmed(column_ref@)),
{
    let t = trim(column_ref);
    if t.unicode_len() == 0 {
        None
    } else {
        Some(String::from_str(t))
    }
}

/// The column id that a (normalized) reference resolves to on the queried
/// board: `None` when the board was not found.
pub fn column_id_from_boards(boards: &Vec<Board>, column_ref: &str) -> (r: Option<String>)
    ensures
        boards@.len() == 0 ==> r is None,
        boards@.len() > 0 ==> opt_text(r) == resolved_column(boards@[0].columns@, column_ref@),
{
    if boards.len() == 0 {
        None
    } else {
        column_id_in_board(&boards[0], column_ref)
    }
}

/// The status column is the one with the resolved id, or whose title equals
/// the configured reference up to ASCII case.
pub open spec fn settings_column_matches(id: Seq<char>, r: Seq<char>) -> spec_fn(ColumnWithSettings) -> bool {
    |c: ColumnWithSettings| c.id@ == id || same_ignoring_ascii_case(c.title@, r)
}

/// The non-empty settings text of the first status column, if any.
pub open spec fn status_settings_of(cols: Seq<ColumnWithSettings>, id: Seq<char>, r: Seq<char>) -> Option<Seq<char>> {
    match first_match(cols, settings_column_matches(id, r)) {
        Some(i) => match cols[i].settings_str {
            Some(s) => if s@.len() > 0 { Some(s@) } else { None },
            None => None,
        },
        None => None,
    }
}

/// The settings text of the status column of a board.
pub fn status_settings_text(
    board: &BoardWithColumnSettings,
    status_col_id: &str,
    status_column_ref: &str,
) -> (r: Option<String>)
    ensures
        opt_text(r) == status_settings_of(board.columns@, status_col_id@, status_column_ref@),
{
    let cols = &board.columns;
    let n = cols.len();
    let ghost p = settings_column_matches(status_col_id@, status_column_ref@);
    for i in 0..n
        invariant
            n == cols@.len(),
            cols@ == board.columns@,
            p == settings_column_matches(status_col_id@, status_column_ref@),
            forall|j: int| 0 <= j < i ==> !p(#[trigger] cols@[j]),
    {
        if text_eq(cols[i].id.as_str(), status_col_id) || eq_ignore_ascii_case(
            cols[i].title.as_str(),
            status_column_ref,
        ) {
            proof {
                lemma_first_match_found(cols@, p, i as int);
            }
            return match &cols[i].settings_str {
                Some(s) => if s.unicode_len() > 0 {
                    Some(s.clone())
                } else {
                    None
                },
                None => None,
            };
        }
    }
    proof {
        lemma_first_match_none(cols@, p);
    }
    None
}

/// One label of a status column's settings.
#[derive(Debug)]
pub struct StatusLabel {
    pub index: Option<i64>,
    pub id: Option<i64>,
    pub label: Option<String>,
    pub text: Option<String>,
}

/// The index that a settings label gives: `index`, else `id`, else 0.
pub open spec fn label_entry_index(l: StatusLabel) -> u64 {
    match l.index {
        Some(i) => i as u64,
        None => match l.id {
            Some(i) => i as u64,
            None => 0,
        },
    }
}

/// The text that a settings label gives: `label`, else `text`, else empty.
pub open spec fn label_entry_text(l: StatusLabel) -> Seq<char> {
    match l.label {
        Some(s) => s@,
        None => match l.text {
            Some(t) => t@,
            None => Seq::empty(),
        },
    }
}

/// The pair is for the given label text.
pub open spec fn index_pair_has_key(k: Seq<char>) -> spec_fn((Seq<char>, u64)) -> bool {
    |p: (Seq<char>, u64)| p.0 == k
}

/// The table after setting the index of a label.
pub open spec fn upsert_index(m: Seq<(Seq<char>, u64)>, k: Seq<char>, v: u64) -> Seq<(Seq<char>, u64)> {
    match first_match(m, index_pair_has_key(k)) {
        Some(i) => m.update(i, (k, v)),
        None => m.push((k, v)),
    }
}

/// The label to index table that a settings label list gives: labels in
/// order, a later label with the same text overriding an earlier one, and
/// labels without text left out.
pub open spec fn labels_table(labels: Seq<StatusLabel>) -> Seq<(Seq<char>, u64)>
    decreases labels.len(),
{
    if labels.len() == 0 {
        Seq::empty()
    } else {
        let prev = labels_table(labels.drop_last());
        let l = labels.last();
        if label_entry_text(l).len() > 0 {
            upsert_index(prev, label_entry_text(l), label_entry_index(l))
        } else {
            prev
        }
    }
}

/// A status column's labels with the index to send for each.
#[derive(Debug)]
pub struct LabelIndexMap {
    pairs: Vec<(String, u64)>,
}

impl View for LabelIndexMap {
    type V = Seq<(Seq<char>, u64)>;

    closed spec fn view(&self) -> Seq<(Seq<char>, u64)> {
        self.pairs@.map_values(|p: (String, u64)| (p.0@, p.1))
    }
}

impl LabelIndexMap {
    pub fn new() -> (r: Self)
        ensures
            r@.len() == 0,
    {
        let r = LabelIndexMap { pairs: Vec::new() };
        assert(r@ =~= Seq::<(Seq<char>, u64)>::empty());
        r
    }

    /// The pairs in order.
    pub fn pairs(&self) -> (r: &Vec<(String, u64)>)
        ensures
            r@.len() == self@.len(),
            forall|i: int| 0 <= i < r@.len() ==> (#[trigger] r@[i].0@, r@[i].1) == self@[i],
    {
        &self.pairs
    }

    fn position(&self, k: &str) -> (r: Option<usize>)
        ensures
            r matches Some(i) ==> i < self@.len() && first_match(self@, index_pair_has_key(k@)) == Some(i as int),
            r is None ==> first_match(self@, index_pair_has_key(k@)) is None,
    {
        let n = self.pairs.len();
        for i in 0..n
            invariant
                n == self@.len(),
                n == self.pairs@.len(),
                forall|j: int| 0 <= j < i ==> !index_pair_has_key(k@)(#[trigger] self@[j]),
        {
            if text_eq(self.pairs[i].0.as_str(), k) {
                proof {
                    lemma_first_match_found(self@, index_pair_has_key(k@), i as int);
                }
                return Some(i);
            }
        }
        proof {
            lemma_first_match_none(self@, index_pair_has_key(k@));
        }
        None
    }

    /// Sets the index of a label.
    pub fn insert(&mut self, k: String, v: u64)
        ensures
            final(self)@ == upsert_index(old(self)@, k@, v),
    {
        match self.position(k.as_str()) {
            Some(i) => {
                let ghost before = self@;
                self.pairs.set(i, (k, v));
                assert(self@ =~= before.update(i as int, (k@, v)));
            },
            None => {
                let ghost before = self@;
                self.pairs.push((k, v));
                assert(self@ =~= before.push((k@, v)));
            },
        }
    }

    /// The index of a label, matched exactly.
    pub fn get(&self, k: &str) -> (r: Option<u64>)
        ensures
            r == (match first_match(self@, index_pair_has_key(k@)) {
                Some(i) => Some(self@[i].1),
                None => None::<u64>,
            }),
    {
        match self.position(k) {
            Some(i) => {
                assert((self.pairs@[i as int].0@, self.pairs@[i as int].1) == self@[i as int]);
                Some(self.pairs[i].1)
            },
            None => None,
        }
    }
}

/// The label to index table of a status column's settings labels.
pub fn label_index_map(labels: &Vec<StatusLabel>) -> (r: LabelIndexMap)
    ensures
        r@ == labels_table(labels@),
{
    let mut out = LabelIndexMap::new();
    let n = labels.len();
    for i in 0..n
        invariant
            n == labels@.len(),
            out@ == labels_table(labels@.subrange(0, i as int)),
    {
        let entry = &labels[i];
        let idx: u64 = match entry.index {
            Some(x) => x as u64,
            None => match entry.id {
                Some(x) => x as u64,
                None => 0,
            },
        };
        let label: String = match &entry.label {
            Some(s) => s.clone(),
            None => match &entry.text {
                Some(t) => t.clone(),
                None => String::new(),
            },
        };
        assert(labels@.subrange(0, i + 1).drop_last() =~= labels@.subrange(0, i as int));
        assert(labels@.subrange(0, i + 1).last() == labels@[i as int]);
        if label.unicode_len() > 0 {
            out.insert(label, idx);
        }
    }
    assert(labels@.subrange(0, n as int) =~= labels@);
    out
}

/// A table key equals the label, or its Unicode lowercase, up to ASCII case.
pub open spec fn loosely_names(label: Seq<char>) -> spec_fn((Seq<char>, u64)) -> bool {
    loose_match(label, lowercased(label))
}

/// A table key equals the lowercased label, or the label, up to ASCII case.
pub open spec fn loose_match(label: Seq<char>, lower: Seq<char>) -> spec_fn((Seq<char>, u64)) -> bool {
    |p: (Seq<char>, u64)| same_ignoring_ascii_case(p.0, lower) || same_ignoring_ascii_case(p.0, label)
}

/// The status index for a label: an exact match first, else the first label
/// that matches loosely.
pub open spec fn index_for_label(m: Seq<(Seq<char>, u64)>, label: Seq<char>) -> Option<u64> {
    match first_match(m, index_pair_has_key(label)) {
        Some(i) => Some(m[i].1),
        None => match first_match(m, loosely_names(label)) {
            Some(i) => Some(m[i].1),
            None => None,
        },
    }
}

/// The index of the first table label that equals the lowercased label, or
/// the label itself, up to ASCII case.
pub fn loose_index_for_label(label_map: &LabelIndexMap, label: &str, label_lower: &str) -> (r: Option<u64>)
    ensures
        r == (match first_match(label_map@, loose_match(label@, label_lower@)) {
            Some(i) => Some(label_map@[i].1),
            None => None::<u64>,
        }),
{
    let pairs = label_map.pairs();
    let n = pairs.len();
    let ghost m = label_map@;
    let ghost p = loose_match(label@, label_lower@);
    for i in 0..n
        invariant
            n == pairs@.len(),
            n == m.len(),
            m == label_map@,
            p == loose_match(label@, label_lower@),
            forall|j: int| 0 <= j < n ==> (#[trigger] pairs@[j].0@, pairs@[j].1) == m[j],
            forall|j: int| 0 <= j < i ==> !p(#[trigger] m[j]),
    {
        assert((pairs@[i as int].0@, pairs@[i as int].1) == m[i as int]);
        if eq_ignore_ascii_case(pairs[i].0.as_str(), label_lower) || eq_ignore_ascii_case(pairs[i].0.as_str(), label) {
            proof {
                lemma_first_match_found(m, p, i as int);
            }
            return Some(pairs[i].1);
        }
    }
    proof {
        lemma_first_match_none(m, p);
    }
    None
}

/// Find the status index for a label; tries exact match then case-insensitive.
pub fn status_index_for_label(label_map: &LabelIndexMap, label: &str) -> (r: Option<u64>)
    ensures
        r == index_for_label(label_map@, label@),
{
    if let Some(idx) = label_map.get(label) {
        return Some(idx);
    }
    let label_lower = lowercase(label);
    loose_index_for_label(label_map, label, label_lower.as_str())
}

/// Setting a label's index in a table makes a lookup of that label give it.
pub proof fn lemma_upsert_index_then_lookup(m: Seq<(Seq<char>, u64)>, k: Seq<char>, v: u64)
    ensures
        index_for_label(upsert_index(m, k, v), k) == Some(v),
{
    let p = index_pair_has_key(k);
    let t = upsert_index(m, k, v);
    lemma_first_match_spec(m, p);
    match first_match(m, p) {
        Some(j) => {
            assert forall|i: int| 0 <= i < j implies !p(#[trigger] t[i]) by {
                assert(t[i] == m[i]);
            }
            lemma_first_match_found(t, p, j);
        },
        None => {
            assert forall|i: int| 0 <= i < m.len() implies !p(#[trigger] t[i]) by {
                assert(t[i] == m[i]);
                assert(!(0 <= i < m.len() && p(m[i])));
            }
            lemma_first_match_found(t, p, m.len() as int);
        },
    }
}

/// The index a status column gives its last label is that label's `index`
/// field when it has one, else its `id` field: looking up the label's text in
/// the table gives it, whatever labels came before.
pub proof fn lemma_last_label_index(labels: Seq<StatusLabel>, l: StatusLabel, t: String)
    requires
        l.label == Some(t),
        t@.len() > 0,
    ensures
        l.index matches Some(i) ==> index_for_label(labels_table(labels.push(l)), t@) == Some(i as u64),
        l.index is None ==> (l.id matches Some(i) ==> index_for_label(labels_table(labels.push(l)), t@) == Some(
            i as u64,
        )),
        l.index is None && l.id is None ==> index_for_label(labels_table(labels.push(l)), t@) == Some(0u64),
{
    let ls = labels.push(l);
    assert(ls.drop_last() =~= labels);
    assert(ls.last() == l);
    lemma_upsert_index_then_lookup(labels_table(labels), t@, label_entry_index(l));
}

} // verus!
