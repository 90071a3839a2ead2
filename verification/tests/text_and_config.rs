use mondaybot::config::{
    default_status_map, effective_board_id, effective_token, Config, ConfigError, StatusMap, TOKEN_URL,
};
use mondaybot::text::{
    eq_ignore_ascii_case, has_prefix, join2, parse_u64, replace_spaces, text_eq, to_ascii_lower, u64_to_decimal,
};

fn pairs(m: &StatusMap) -> Vec<(String, String)> {
    m.pairs().clone()
}

#[test]
fn parse_u64_accepts_digits_and_plus() {
    assert_eq!(parse_u64("123"), Some(123));
    assert_eq!(parse_u64("+7"), Some(7));
    assert_eq!(parse_u64("0"), Some(0));
    assert_eq!(parse_u64("007"), Some(7));
    assert_eq!(parse_u64("18446744073709551615"), Some(u64::MAX));
}

#[test]
fn parse_u64_rejects_everything_else() {
    assert_eq!(parse_u64(""), None);
    assert_eq!(parse_u64("+"), None);
    assert_eq!(parse_u64("-1"), None);
    assert_eq!(parse_u64("12a"), None);
    assert_eq!(parse_u64(" 1"), None);
    assert_eq!(parse_u64("18446744073709551616"), None);
    assert_eq!(parse_u64("99999999999999999999999"), None);
}

#[test]
fn parse_u64_agrees_with_std() {
    for s in ["1", "+1", "-0", "", "4294967296", "1_000", "٣", "18446744073709551615", "18446744073709551616"] {
        assert_eq!(parse_u64(s), s.parse::<u64>().ok(), "input {s:?}");
    }
}

#[test]
fn decimal_rendering() {
    assert_eq!(u64_to_decimal(0), "0");
    assert_eq!(u64_to_decimal(7), "7");
    assert_eq!(u64_to_decimal(10), "10");
    assert_eq!(u64_to_decimal(1234567890), "1234567890");
    assert_eq!(u64_to_decimal(u64::MAX), u64::MAX.to_string());
}

#[test]
fn ascii_case_helpers() {
    assert_eq!(to_ascii_lower('A'), 'a');
    assert_eq!(to_ascii_lower('z'), 'z');
    assert_eq!(to_ascii_lower('É'), 'É');
    assert!(eq_ignore_ascii_case("In Progress", "in progress"));
    assert!(!eq_ignore_ascii_case("Done", "Don"));
    assert!(!eq_ignore_ascii_case("É", "é"));
    assert!(text_eq("abc", "abc"));
    assert!(!text_eq("abc", "abC"));
    assert!(has_prefix("status_map.open", "status_map."));
    assert!(!has_prefix("status", "status_map."));
    assert_eq!(replace_spaces("in review now"), "in_review_now");
    assert_eq!(join2("ab", "cd"), "abcd");
}

#[test]
fn default_config() {
    let cfg = Config::default();
    assert_eq!(cfg.api_token, "");
    assert_eq!(cfg.board_id, None);
    assert_eq!(cfg.status_column, None);
    assert_eq!(cfg.name_column, None);
    assert_eq!(cfg.owner_column, None);
    assert_eq!(
        pairs(&cfg.status_map),
        vec![
            ("open".to_string(), "To Do".to_string()),
            ("in_progress".to_string(), "In Progress".to_string()),
            ("closed".to_string(), "Done".to_string()),
            ("cancelled".to_string(), "Blocked".to_string()),
        ]
    );
    assert_eq!(pairs(&default_status_map()), pairs(&cfg.status_map));
}

#[test]
fn set_value_status_map_entry() {
    let mut cfg = Config::default();
    assert_eq!(cfg.set_value("status_map.in_progress", "Started"), Ok(()));
    assert_eq!(cfg.status_label("in_progress"), "Started");
    assert_eq!(cfg.set_value("status_map.review", "In Review"), Ok(()));
    assert_eq!(cfg.status_label("review"), "In Review");
    assert_eq!(pairs(&cfg.status_map).len(), 5);
}

#[test]
fn set_value_empty_status_key_is_refused() {
    let mut cfg = Config::default();
    assert_eq!(cfg.set_value("status_map.", "X"), Err(ConfigError::EmptyStatusMapKey));
    assert_eq!(pairs(&cfg.status_map).len(), 4);
}

#[test]
fn set_value_plain_keys() {
    let mut cfg = Config::default();
    assert_eq!(cfg.set_value("api_token", "tok"), Ok(()));
    assert_eq!(cfg.api_token, "tok");
    assert_eq!(cfg.set_value("board_id", "1234567890"), Ok(()));
    assert_eq!(cfg.board_id, Some(1234567890));
    assert_eq!(cfg.require_board_id(), Ok(1234567890));
    assert_eq!(cfg.set_value("status_column", "Status"), Ok(()));
    assert_eq!(cfg.status_column.as_deref(), Some("Status"));
    assert_eq!(cfg.set_value("name_column", "Name"), Ok(()));
    assert_eq!(cfg.name_column.as_deref(), Some("Name"));
    assert_eq!(cfg.set_value("owner_column", "Owner"), Ok(()));
    assert_eq!(cfg.owner_column.as_deref(), Some("Owner"));
}

#[test]
fn set_value_errors_leave_config_unchanged() {
    let mut cfg = Config::default();
    cfg.board_id = Some(5);
    assert_eq!(cfg.set_value("board_id", "abc"), Err(ConfigError::InvalidBoardId));
    assert_eq!(cfg.board_id, Some(5));
    assert_eq!(cfg.set_value("colour", "red"), Err(ConfigError::UnknownKey("colour".to_string())));
    assert_eq!(cfg.set_value("status_map", "x"), Err(ConfigError::UnknownKey("status_map".to_string())));
}

#[test]
fn require_board_id_missing() {
    let cfg = Config::default();
    assert_eq!(cfg.require_board_id(), Err(ConfigError::MissingBoardId));
}

#[test]
fn load_or_fail_needs_token() {
    let cfg = Config::default();
    assert!(matches!(Config::load_or_fail(cfg), Err(ConfigError::MissingApiToken)));
    let mut cfg = Config::default();
    cfg.api_token = "abc".to_string();
    let ok = Config::load_or_fail(cfg).unwrap();
    assert_eq!(ok.api_token, "abc");
}

#[test]
fn effective_overrides() {
    let mut cfg = Config::default();
    assert_eq!(effective_board_id(Some(9), &cfg), Ok(9));
    assert_eq!(effective_board_id(None, &cfg), Err(ConfigError::MissingBoardId));
    cfg.board_id = Some(3);
    assert_eq!(effective_board_id(None, &cfg), Ok(3));
    cfg.api_token = "cfg".to_string();
    assert_eq!(effective_token(Some("cli"), &cfg), "cli");
    assert_eq!(effective_token(None, &cfg), "cfg");
}

#[test]
fn status_label_falls_back_to_status() {
    let cfg = Config::default();
    assert_eq!(cfg.status_label("open"), "To Do");
    assert_eq!(cfg.status_label("blocked"), "blocked");
}

#[test]
fn monday_label_maps_back_case_insensitively() {
    let cfg = Config::default();
    assert_eq!(cfg.monday_label_to_beads_status("Done"), "closed");
    assert_eq!(cfg.monday_label_to_beads_status("in progress"), "in_progress");
    assert_eq!(cfg.monday_label_to_beads_status("TO DO"), "open");
}

#[test]
fn unknown_monday_label_is_lowercased_with_underscores() {
    let cfg = Config::default();
    assert_eq!(cfg.monday_label_to_beads_status("In Review"), "in_review");
    assert_eq!(cfg.monday_label_to_beads_status("ÉTUDE Now"), "étude_now");
}

#[test]
fn status_label_round_trip() {
    let cfg = Config::default();
    for s in ["open", "in_progress", "closed", "cancelled"] {
        let label = cfg.status_label(s);
        assert_eq!(cfg.monday_label_to_beads_status(&label), s);
    }
}

#[test]
fn status_map_insert_then_get() {
    let mut m = StatusMap::new();
    assert_eq!(m.get("a"), None);
    m.insert("a".to_string(), "A".to_string());
    m.insert("b".to_string(), "B".to_string());
    m.insert("a".to_string(), "A2".to_string());
    assert_eq!(m.get("a").map(|s| s.as_str()), Some("A2"));
    assert_eq!(m.get("b").map(|s| s.as_str()), Some("B"));
    assert_eq!(m.pairs().len(), 2);
}

#[test]
fn token_url_value() {
    assert_eq!(TOKEN_URL, "https://arupinnovation.monday.com/apps/manage/tokens");
}

#[test]
fn env_overrides_replace_token_and_numeric_board() {
    let c = Config::default().with_env_overrides(Some("tok".to_string()), Some("123".to_string()));
    assert_eq!(c.api_token, "tok");
    assert_eq!(c.board_id, Some(123));
    let mut base = Config::default();
    base.board_id = Some(7);
    base.api_token = "file".to_string();
    let c = base.with_env_overrides(None, Some("abc".to_string()));
    assert_eq!(c.api_token, "file");
    assert_eq!(c.board_id, Some(7));
}

#[test]
fn config_error_messages() {
    assert_eq!(
        ConfigError::MissingApiToken.message(),
        format!("No API token configured. Get one at {TOKEN_URL} then:\n  export MONDAY_API_TOKEN=<token>\n  or: mondaybot config set api_token <token>")
    );
    assert_eq!(
        ConfigError::MissingBoardId.message(),
        "No board_id configured. Run `mondaybot boards list` to find your board ID, then:\n  mondaybot config set board_id <id>"
    );
    assert_eq!(ConfigError::InvalidBoardId.message(), "board_id must be a number");
    assert!(ConfigError::UnknownKey("x".to_string()).message().starts_with("unknown config key: x. Valid keys: api_token"));
}

#[test]
fn trim_removes_unicode_white_space_at_both_ends() {
    assert_eq!(mondaybot::text::trim(" STATUS "), "STATUS");
    assert_eq!(mondaybot::text::trim("\u{3000}\t a b \u{a0}\n"), "a b");
    assert_eq!(mondaybot::text::trim("   "), "");
    assert_eq!(mondaybot::text::trim(""), "");
    assert!(mondaybot::text::is_white_space('\u{2028}'));
    assert!(!mondaybot::text::is_white_space('x'));
}
