//! The monday.com data the sync logic reads, as plain values.

use vstd::prelude::*;

verus! {

#[derive(Debug)]
pub struct Board {
    pub id: String,
    pub name: String,
    pub columns: Vec<Column>,
    pub groups: Vec<Group>,
}

#[derive(Debug)]
pub struct Column {
    pub id: String,
    pub title: String,
    pub type_: Option<String>,
}

/// Column with settings (e.g. status labels and indices).
#[derive(Debug)]
pub struct ColumnWithSettings {
    pub id: String,
    pub title: String,
    pub type_: Option<String>,
    pub settings_str: Option<String>,
}

#[derive(Debug)]
pub struct BoardWithColumnSettings {
    pub id: String,
    pub columns: Vec<ColumnWithSettings>,
}

#[derive(Debug)]
pub struct Group {
    pub id: String,
    pub title: String,
}

#[derive(Debug)]
pub struct Item {
    pub id: String,
    pub name: String,
    pub group: Option<Group>,
    pub column_values: Vec<ColumnValue>,
    pub subitems: Option<Vec<Item>>,
    pub board: Option<BoardRef>,
}

/// Board id of an item (the API sends it as a string or a number).
#[derive(Debug)]
pub struct BoardRef {
    pub id: String,
}

#[derive(Debug)]
pub struct ColumnValue {
    pub id: String,
    pub text: Option<String>,
    pub value: Option<String>,
}

#[derive(Debug)]
pub struct BoardsResponse {
    pub boards: Vec<Board>,
}

#[derive(Debug)]
pub struct BoardsWithSettingsResponse {
    pub boards: Vec<BoardWithColumnSettings>,
}

#[derive(Debug)]
pub struct ItemsPageResponse {
    pub boards: Vec<BoardWithItemsPage>,
}

#[derive(Debug)]
pub struct BoardWithItemsPage {
    pub items_page: ItemsPage,
}

#[derive(Debug)]
pub struct ItemsPage {
    pub cursor: Option<String>,
    pub items: Vec<Item>,
}

#[derive(Debug)]
pub struct SingleItemResponse {
    pub items: Vec<Item>,
}

/// Minimal item shape for the item-board query (id + board only).
#[derive(Debug)]
pub struct ItemBoardInfo {
    pub id: String,
    pub board: Option<BoardRef>,
}

#[derive(Debug)]
pub struct ItemBoardResponse {
    pub items: Vec<ItemBoardInfo>,
}

#[derive(Debug)]
pub struct CreateItemResponse {
    pub create_item: Item,
}

#[derive(Debug)]
pub struct CreateSubitemResponse {
    pub create_subitem: Item,
}

#[derive(Debug)]
pub struct ChangeColumnValuesResponse {
    pub change_multiple_column_values: Item,
}

impl BoardsResponse {
    /// The first board the query returned, if any.
    pub fn into_first_board(self) -> (r: Option<Board>)
        ensures
            self.boards@.len() == 0 ==> r is None,
            self.boards@.len() > 0 ==> r == Some(self.boards@[0]),
    {
        let mut boards = self.boards;
        if boards.len() == 0 {
            None
        } else {
            Some(boards.swap_remove(0))
        }
    }
}

impl ItemsPageResponse {
    /// The items page of the first board, or an empty page when no board
    /// came back.
    pub fn into_first_page(self) -> (r: ItemsPage)
        ensures
            self.boards@.len() > 0 ==> r == self.boards@[0].items_page,
            self.boards@.len() == 0 ==> r.cursor is None && r.items@.len() == 0,
    {
        let mut boards = self.boards;
        if boards.len() == 0 {
            ItemsPage { cursor: None, items: Vec::new() }
        } else {
            boards.swap_remove(0).items_page
        }
    }
}

impl SingleItemResponse {
    /// The first item the query returned, if any.
    pub fn into_first_item(self) -> (r: Option<Item>)
        ensures
            self.items@.len() == 0 ==> r is None,
            self.items@.len() > 0 ==> r == Some(self.items@[0]),
    {
        let mut items = self.items;
        if items.len() == 0 {
            None
        } else {
            Some(items.swap_remove(0))
        }
    }
}

} // verus!
