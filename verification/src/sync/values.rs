//! The column values sent with an item update or creation: one setting per
//! column id, a later setting of the same column replacing the earlier one.

use vstd::prelude::*;
use crate::search::{first_match, lemma_first_match_found, lemma_first_match_none};
use crate::text::text_eq;

verus! {

/// What is written into one column.
#[derive(Debug)]
pub enum ColumnSetting {
    /// A plain text value (the item name).
    Text(String),
    /// A status given by its label.
    Label(String),
    /// A status given by its index in the column's settings.
    Index(u64),
    /// A people column assigned to one person.
    Person(u64),
}

pub enum SettingView {
    Text(Seq<char>),
    Label(Seq<char>),
    Index(u64),
    Person(u64),
}

impl View for ColumnSetting {
    type V = SettingView;

    open spec fn view(&self) -> SettingView {
        match self {
            ColumnSetting::Text(s) => SettingView::Text(s@),
            ColumnSetting::Label(s) => SettingView::Label(s@),
            ColumnSetting::Index(i) => SettingView::Index(*i),
            ColumnSetting::Person(p) => SettingView::Person(*p),
        }
    }
}

/// Column id to setting, in the order the settings were made.
#[derive(Debug)]
pub struct ColumnValues {
    entries: Vec<(String, ColumnSetting)>,
}

impl View for ColumnValues {
    type V = Seq<(Seq<char>, SettingView)>;

    closed spec fn view(&self) -> Seq<(Seq<char>, SettingView)> {
        self.entries@.map_values(|p: (String, ColumnSetting)| (p.0@, p.1@))
    }
}

/// The setting is for the given column.
pub open spec fn setting_for(col: Seq<char>) -> spec_fn((Seq<char>, SettingView)) -> bool {
    |p: (Seq<char>, SettingView)| p.0 == col
}

/// The settings after setting column `col` to `v`.
pub open spec fn with_setting(m: Seq<(Seq<char>, SettingView)>, col: Seq<char>, v: SettingView) -> Seq<
    (Seq<char>, SettingView),
> {
    match first_match(m, setting_for(col)) {
        Some(i) => m.update(i, (col, v)),
        None => m.push((col, v)),
    }
}

impl ColumnValues {
    /// No column set (`{}`).
    pub fn new() -> (r: Self)
        ensures
            r@.len() == 0,
    {
        let r = ColumnValues { entries: Vec::new() };
        assert(r@ =~= Seq::<(Seq<char>, SettingView)>::empty());
        r
    }

    /// The settings in order.
    pub fn entries(&self) -> (r: &Vec<(String, ColumnSetting)>)
        ensures
            r@.len() == self@.len(),
            forall|i: int| 0 <= i < r@.len() ==> (#[trigger] r@[i].0@, r@[i].1@) == self@[i],
    {
        &self.entries
    }

    fn position(&self, col: &str) -> (r: Option<usize>)
        ensures
            r matches Some(i) ==> i < self@.len() && first_match(self@, setting_for(col@)) == Some(
                i as int,
            ),
            r is None ==> first_match(self@, setting_for(col@)) is None,
    {
        let n = self.entries.len();
        for i in 0..n
            invariant
                n == self@.len(),
                n == self.entries@.len(),
                forall|j: int| 0 <= j < i ==> !setting_for(col@)(#[trigger] self@[j]),
        {
            if text_eq(self.entries[i].0.as_str(), col) {
                proof {
                    lemma_first_match_found(self@, setting_for(col@), i as int);
                }
                return Some(i);
            }
        }
        proof {
            lemma_first_match_none(self@, setting_for(col@));
        }
        None
    }

    /// Sets one column, replacing an earlier setting of it.
    pub fn set(&mut self, col: String, v: ColumnSetting)
        ensures
            final(self)@ == with_setting(old(self)@, col@, v@),
    {
        let ghost before = self@;
        let ghost vv = v@;
        match self.position(col.as_str()) {
            Some(i) => {
                let ghost cv = col@;
                self.entries.set(i, (col, v));
                assert(self@ =~= before.update(i as int, (cv, vv)));
            },
            None => {
                let ghost cv = col@;
                self.entries.push((col, v));
                assert(self@ =~= before.push((cv, vv)));
            },
        }
    }
}

} // verus!
