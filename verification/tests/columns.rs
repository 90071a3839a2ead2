use mondaybot::api::types::{Board, BoardWithColumnSettings, Column, ColumnWithSettings};
use mondaybot::sync::columns::{
    column_id_from_boards, column_id_in_board, label_index_map, normalized_column_ref, status_index_for_label,
    status_settings_text, LabelIndexMap, StatusLabel,
};

fn col(id: &str, title: &str) -> Column {
    Column { id: id.to_string(), title: title.to_string(), type_: None }
}

fn board(cols: Vec<Column>) -> Board {
    Board { id: "1".to_string(), name: "B".to_string(), columns: cols, groups: vec![] }
}

#[test]
fn column_by_id_or_title() {
    let b = board(vec![col("name", "Name"), col("status", "Status"), col("person", "Owner")]);
    assert_eq!(column_id_in_board(&b, "status").as_deref(), Some("status"));
    assert_eq!(column_id_in_board(&b, "STATUS").as_deref(), Some("status"));
    assert_eq!(column_id_in_board(&b, "owner").as_deref(), Some("person"));
    assert_eq!(column_id_in_board(&b, "Priority"), None);
}

#[test]
fn column_first_title_match_wins() {
    let b = board(vec![col("a1", "Status"), col("a2", "status")]);
    assert_eq!(column_id_in_board(&b, "STATUS").as_deref(), Some("a1"));
}

#[test]
fn column_from_boards() {
    assert_eq!(column_id_from_boards(&vec![], "x"), None);
    let boards = vec![board(vec![col("x", "X")]), board(vec![col("y", "Y")])];
    assert_eq!(column_id_from_boards(&boards, "y"), None);
    assert_eq!(column_id_from_boards(&boards, "x").as_deref(), Some("x"));
}

#[test]
fn column_ref_is_trimmed() {
    assert_eq!(normalized_column_ref("  Status \t").as_deref(), Some("Status"));
    assert_eq!(normalized_column_ref("   "), None);
    assert_eq!(normalized_column_ref(""), None);
}

fn scol(id: &str, title: &str, settings: Option<&str>) -> ColumnWithSettings {
    ColumnWithSettings { id: id.to_string(), title: title.to_string(), type_: None, settings_str: settings.map(String::from) }
}

#[test]
fn settings_of_status_column() {
    let b = BoardWithColumnSettings {
        id: "1".to_string(),
        columns: vec![scol("name", "Name", Some("{}")), scol("status", "Status", Some("{\"labels\":[]}"))],
    };
    assert_eq!(status_settings_text(&b, "status", "x").as_deref(), Some("{\"labels\":[]}"));
    assert_eq!(status_settings_text(&b, "nope", "STATUS").as_deref(), Some("{\"labels\":[]}"));
    assert_eq!(status_settings_text(&b, "nope", "nope"), None);
    let empty = BoardWithColumnSettings { id: "1".to_string(), columns: vec![scol("status", "Status", Some(""))] };
    assert_eq!(status_settings_text(&empty, "status", "Status"), None);
    let none = BoardWithColumnSettings { id: "1".to_string(), columns: vec![scol("status", "Status", None)] };
    assert_eq!(status_settings_text(&none, "status", "Status"), None);
}

fn label(index: Option<i64>, id: Option<i64>, l: Option<&str>, t: Option<&str>) -> StatusLabel {
    StatusLabel { index, id, label: l.map(String::from), text: t.map(String::from) }
}

fn table(m: &LabelIndexMap) -> Vec<(String, u64)> {
    m.pairs().clone()
}

#[test]
fn label_table_from_settings() {
    let labels = vec![
        label(Some(0), None, Some("Working on it"), None),
        label(None, Some(1), Some("Done"), None),
        label(None, None, None, Some("Stuck")),
        label(Some(5), None, None, None),
        label(Some(7), None, Some("Done"), None),
        label(Some(-1), None, Some("Weird"), None),
    ];
    let m = label_index_map(&labels);
    assert_eq!(
        table(&m),
        vec![
            ("Working on it".to_string(), 0),
            ("Done".to_string(), 7),
            ("Stuck".to_string(), 0),
            ("Weird".to_string(), u64::MAX),
        ]
    );
}

#[test]
fn index_for_label_exact_then_loose() {
    let mut m = LabelIndexMap::new();
    m.insert("Done".to_string(), 1);
    m.insert("done".to_string(), 2);
    m.insert("In Progress".to_string(), 3);
    assert_eq!(status_index_for_label(&m, "done"), Some(2));
    assert_eq!(status_index_for_label(&m, "DONE"), Some(1));
    assert_eq!(status_index_for_label(&m, "in progress"), Some(3));
    assert_eq!(status_index_for_label(&m, "Blocked"), None);
    assert_eq!(m.get("Done"), Some(1));
    assert_eq!(m.get("DONE"), None);
}

#[test]
fn exact_id_wins_over_earlier_title_match() {
    let b = board(vec![col("status_1", "status"), col("status", "Stage")]);
    assert_eq!(column_id_in_board(&b, "status").as_deref(), Some("status"));
    assert_eq!(column_id_in_board(&b, "STAGE").as_deref(), Some("status"));
    assert_eq!(column_id_in_board(&b, "nothing"), None);
}

#[test]
fn loose_index_matches_lowercased_or_label() {
    let mut m = LabelIndexMap::new();
    m.insert("In Progress".to_string(), 4);
    m.insert("done".to_string(), 1);
    assert_eq!(mondaybot::sync::columns::loose_index_for_label(&m, "DONE", "done"), Some(1));
    assert_eq!(mondaybot::sync::columns::loose_index_for_label(&m, "in progress", "in progress"), Some(4));
    assert_eq!(mondaybot::sync::columns::loose_index_for_label(&m, "x", "x"), None);
}
