//! User configuration: API token, default board, column references and the
//! mapping from beads statuses to monday.com status labels.

use vstd::prelude::*;
use crate::search::{first_match, is_first_match, lemma_first_match_found, lemma_first_match_none, lemma_first_match_spec};
use crate::text::{
    eq_ignore_ascii_case, has_prefix, parse_u64, parsed_u64, replace_spaces, same_ignoring_ascii_case,
    starts_with, text_eq, lemma_lowercase_of_ascii, lowercase, lowercased, underscored,
};

verus! {

/// Where users obtain an API token.
pub const TOKEN_URL: &'static str = "https://arupinnovation.monday.com/apps/manage/tokens";

/// Beads status to monday.com status label, kept in insertion order.
#[derive(Debug)]
pub struct StatusMap {
    pairs: Vec<(String, String)>,
}

impl View for StatusMap {
    type V = Seq<(Seq<char>, Seq<char>)>;

    closed spec fn view(&self) -> Seq<(Seq<char>, Seq<char>)> {
        self.pairs@.map_values(|p: (String, String)| (p.0@, p.1@))
    }
}

/// The pair is for the given beads status.
pub open spec fn pair_has_key(k: Seq<char>) -> spec_fn((Seq<char>, Seq<char>)) -> bool {
    |p: (Seq<char>, Seq<char>)| p.0 == k
}

/// The pair's label equals `label` up to ASCII case.
pub open spec fn pair_has_label(label: Seq<char>) -> spec_fn((Seq<char>, Seq<char>)) -> bool {
    |p: (Seq<char>, Seq<char>)| same_ignoring_ascii_case(p.1, label)
}

/// The label that a status map gives a beads status.
pub open spec fn label_of(m: Seq<(Seq<char>, Seq<char>)>, k: Seq<char>) -> Option<Seq<char>> {
    match first_match(m, pair_has_key(k)) {
        Some(i) => Some(m[i].1),
        None => None,
    }
}

/// The status map after `insert(k, v)`: the pair of `k` gets `v`, or the pair
/// is appended.
pub open spec fn upsert_pair(m: Seq<(Seq<char>, Seq<char>)>, k: Seq<char>, v: Seq<char>) -> Seq<
    (Seq<char>, Seq<char>),
> {
    match first_match(m, pair_has_key(k)) {
        Some(i) => m.update(i, (k, v)),
        None => m.push((k, v)),
    }
}

/// The beads status that a monday.com label stands for: the status of the
/// first pair whose label matches up to ASCII case, else the label in
/// lowercase with spaces turned into underscores.
pub open spec fn status_for_label(m: Seq<(Seq<char>, Seq<char>)>, label: Seq<char>) -> Seq<char> {
    match first_match(m, pair_has_label(label)) {
        Some(i) => m[i].0,
        None => underscored(lowercased(label)),
    }
}

/// The monday.com label for a beads status: its mapped label, else the
/// status itself.
pub open spec fn label_for_status(m: Seq<(Seq<char>, Seq<char>)>, status: Seq<char>) -> Seq<char> {
    match label_of(m, status) {
        Some(l) => l,
        None => status,
    }
}

/// No two labels of the map are equal up to ASCII case.
pub open spec fn labels_distinct(m: Seq<(Seq<char>, Seq<char>)>) -> bool {
    forall|i: int, j: int|
        0 <= i < m.len() && 0 <= j < m.len() && i != j ==> !same_ignoring_ascii_case(
            #[trigger] m[i].1,
            #[trigger] m[j].1,
        )
}

impl StatusMap {
    pub fn new() -> (r: Self)
        ensures
            r@.len() == 0,
    {
        let r = StatusMap { pairs: Vec::new() };
        assert(r@ =~= Seq::<(Seq<char>, Seq<char>)>::empty());
        r
    }

    /// The pairs in order.
    pub fn pairs(&self) -> (r: &Vec<(String, String)>)
        ensures
            r@.len() == self@.len(),
            forall|i: int| 0 <= i < r@.len() ==> (#[trigger] r@[i].0@, r@[i].1@) == self@[i],
    {
        &self.pairs
    }

    fn position(&self, k: &str) -> (r: Option<usize>)
        ensures
            r matches Some(i) ==> i < self@.len() && first_match(self@, pair_has_key(k@)) == Some(i as int),
            r is None ==> first_match(self@, pair_has_key(k@)) is None,
    {
        let n = self.pairs.len();
        for i in 0..n
            invariant
                n == self@.len(),
                n == self.pairs@.len(),
                forall|j: int| 0 <= j < i ==> !pair_has_key(k@)(#[trigger] self@[j]),
        {
            if text_eq(self.pairs[i].0.as_str(), k) {
                proof {
                    lemma_first_match_found(self@, pair_has_key(k@), i as int);
                }
                return Some(i);
            }
        }
        proof {
            lemma_first_match_none(self@, pair_has_key(k@));
        }
        None
    }

    /// Sets the label of a beads status.
    pub fn insert(&mut self, k: String, v: String)
        ensures
            final(self)@ == upsert_pair(old(self)@, k@, v@),
    {
        match self.position(k.as_str()) {
            Some(i) => {
                let ghost before = self@;
                self.pairs.set(i, (k, v));
                assert(self@ =~= before.update(i as int, (k@, v@)));
            },
            None => {
                let ghost before = self@;
                self.pairs.push((k, v));
                assert(self@ =~= before.push((k@, v@)));
            },
        }
    }

    /// The label of a beads status.
    pub fn get(&self, k: &str) -> (r: Option<&String>)
        ensures
            r matches Some(v) ==> label_of(self@, k@) == Some(v@),
            r is None ==> label_of(self@, k@) is None,
    {
        match self.position(k) {
            Some(i) => Some(&self.pairs[i].1),
            None => None,
        }
    }
}

/// Why a configuration request was refused.
#[derive(Debug, PartialEq, Eq)]
pub enum ConfigError {
    /// `status_map.` with nothing after the dot.
    EmptyStatusMapKey,
    /// `board_id` given a value that is not a number.
    InvalidBoardId,
    /// A key that the configuration does not have.
    UnknownKey(String),
    /// No API token is configured.
    MissingApiToken,
    /// No board id is configured.
    MissingBoardId,
}

/// The message of a configuration error.
pub open spec fn config_error_text(e: ConfigError) -> Seq<char> {
    match e {
        ConfigError::EmptyStatusMapKey => "status_map.<beads_status> requires a beads status, e.g. status_map.in_progress"@,
        ConfigError::InvalidBoardId => "board_id must be a number"@,
        ConfigError::UnknownKey(key) => "unknown config key: "@ + key@
            + ". Valid keys: api_token, board_id, status_column, name_column, owner_column, status_map.<beads_status> (e.g. status_map.in_progress)"@,
        ConfigError::MissingApiToken => "No API token configured. Get one at "@ + TOKEN_URL@
            + " then:\n  export MONDAY_API_TOKEN=<token>\n  or: mondaybot config set api_token <token>"@,
        ConfigError::MissingBoardId => "No board_id configured. Run `mondaybot boards list` to find your board ID, then:\n  mondaybot config set board_id <id>"@,
    }
}

impl ConfigError {
    /// The message to show for the error.
    pub fn message(&self) -> (r: String)
        ensures
            r@ == config_error_text(*self),
    {
        match self {
            ConfigError::EmptyStatusMapKey => String::from_str(
                "status_map.<beads_status> requires a beads status, e.g. status_map.in_progress",
            ),
            ConfigError::InvalidBoardId => String::from_str("board_id must be a number"),
            ConfigError::UnknownKey(key) => {
                let m = crate::text::join2("unknown config key: ", key.as_str());
                crate::text::join2(
                    m.as_str(),
                    ". Valid keys: api_token, board_id, status_column, name_column, owner_column, status_map.<beads_status> (e.g. status_map.in_progress)",
                )
            },
            ConfigError::MissingApiToken => {
                let m = crate::text::join2("No API token configured. Get one at ", TOKEN_URL);
                crate::text::join2(
                    m.as_str(),
                    " then:\n  export MONDAY_API_TOKEN=<token>\n  or: mondaybot config set api_token <token>",
                )
            },
            ConfigError::MissingBoardId => String::from_str(
                "No board_id configured. Run `mondaybot boards list` to find your board ID, then:\n  mondaybot config set board_id <id>",
            ),
        }
    }
}

/// The configuration file's contents, with environment overrides applied.
#[derive(Debug)]
pub struct Config {
    pub api_token: String,
    pub board_id: Option<u64>,
    pub status_column: Option<String>,
    pub status_map: StatusMap,
    pub name_column: Option<String>,
    pub owner_column: Option<String>,
}

/// The labels that a new configuration maps the beads statuses to.
pub open spec fn default_status_pairs() -> Seq<(Seq<char>, Seq<char>)> {
    seq![
        ("open"@, "To Do"@),
        ("in_progress"@, "In Progress"@),
        ("closed"@, "Done"@),
        ("cancelled"@, "Blocked"@),
    ]
}

/// The status map of a new configuration: open, in_progress, closed and
/// cancelled mapped to "To Do", "In Progress", "Done" and "Blocked".
pub fn default_status_map() -> (r: StatusMap)
    ensures
        r@ == default_status_pairs(),
{
    let mut pairs: Vec<(String, String)> = Vec::new();
    pairs.push((String::from_str("open"), String::from_str("To Do")));
    pairs.push((String::from_str("in_progress"), String::from_str("In Progress")));
    pairs.push((String::from_str("closed"), String::from_str("Done")));
    pairs.push((String::from_str("cancelled"), String::from_str("Blocked")));
    let r = StatusMap { pairs };
    assert(r@ =~= default_status_pairs());
    r
}

impl Default for Config {
    fn default() -> (r: Self)
        ensures
            r.api_token@.len() == 0,
            r.board_id is None,
            r.status_column is None,
            r.status_map@ == default_status_pairs(),
            r.name_column is None,
            r.owner_column is None,
    {
        Config {
            api_token: String::new(),
            board_id: None,
            status_column: None,
            status_map: default_status_map(),
            name_column: None,
            owner_column: None,
        }
    }
}

/// The prefix of configuration keys that set a status label.
pub open spec fn status_map_prefix() -> Seq<char> {
    "status_map."@
}

impl Config {
    /// Sets one configuration value, as `config set <key> <value>` does.
    /// `status_map.<status>` sets the label of a beads status; `api_token`,
    /// `board_id` (a number), `status_column`, `name_column` and
    /// `owner_column` set their field; any other key is refused. A refused
    /// request changes nothing.
    pub fn set_value(&mut self, key: &str, value: &str) -> (r: Result<(), ConfigError>)
        ensures
            r is Err ==> *final(self) == *old(self),
            starts_with(key@, status_map_prefix()) ==> {
                let status = key@.skip(status_map_prefix().len() as int);
                if status.len() == 0 {
                    r == Err::<(), ConfigError>(ConfigError::EmptyStatusMapKey)
                } else {
                    &&& r is Ok
                    &&& final(self).status_map@ == upsert_pair(old(self).status_map@, status, value@)
                    &&& final(self).api_token == old(self).api_token
                    &&& final(self).board_id == old(self).board_id
                    &&& final(self).status_column == old(self).status_column
                    &&& final(self).name_column == old(self).name_column
                    &&& final(self).owner_column == old(self).owner_column
                }
            },
            !starts_with(key@, status_map_prefix()) ==> {
                if key@ == "api_token"@ {
                    r is Ok && *final(self) == Config { api_token: final(self).api_token, ..*old(self) }
                        && final(self).api_token@ == value@
                } else if key@ == "board_id"@ {
                    match parsed_u64(value@) {
                        Some(b) => r is Ok && *final(self) == Config { board_id: Some(b), ..*old(self) },
                        None => r == Err::<(), ConfigError>(ConfigError::InvalidBoardId),
                    }
                } else if key@ == "status_column"@ {
                    r is Ok && *final(self) == Config {
                        status_column: final(self).status_column,
                        ..*old(self)
                    } && (final(self).status_column matches Some(c) && c@ == value@)
                } else if key@ == "name_column"@ {
                    r is Ok && *final(self) == Config {
                        name_column: final(self).name_column,
                        ..*old(self)
                    } && (final(self).name_column matches Some(c) && c@ == value@)
                } else if key@ == "owner_column"@ {
                    r is Ok && *final(self) == Config {
                        owner_column: final(self).owner_column,
                        ..*old(self)
                    } && (final(self).owner_column matches Some(c) && c@ == value@)
                } else {
                    r matches Err(ConfigError::UnknownKey(k)) && k@ == key@
                }
            },
    {
        let prefix = "status_map.";
        if has_prefix(key, prefix) {
            let plen = prefix.unicode_len();
            let klen = key.unicode_len();
            if plen == klen {
                return Err(ConfigError::EmptyStatusMapKey);
            }
            let status = key.substring_char(plen, klen);
            self.status_map.insert(String::from_str(status), String::from_str(value));
            return Ok(());
        }
        if text_eq(key, "api_token") {
            self.api_token = String::from_str(value);
        } else if text_eq(key, "board_id") {
            match parse_u64(value) {
                Some(b) => {
                    self.board_id = Some(b);
                },
                None => {
                    return Err(ConfigError::InvalidBoardId);
                },
            }
        } else if text_eq(key, "status_column") {
            self.status_column = Some(String::from_str(value));
        } else if text_eq(key, "name_column") {
            self.name_column = Some(String::from_str(value));
        } else if text_eq(key, "owner_column") {
            self.owner_column = Some(String::from_str(value));
        } else {
            return Err(ConfigError::UnknownKey(String::from_str(key)));
        }
        Ok(())
    }

    /// The configured board id, or `MissingBoardId`.
    /// The configuration with the environment's overrides applied, as
    /// loading does after reading the file: `MONDAY_API_TOKEN` (when set)
    /// replaces the API token, and `MONDAY_BOARD_ID` (when set and read as a
    /// number) replaces the board id; all else is kept.
    pub fn with_env_overrides(self, token: Option<String>, board: Option<String>) -> (c: Config)
        ensures
            c.api_token@ == match token {
                Some(t) => t@,
                None => self.api_token@,
            },
            c.board_id == match board {
                Some(b) => match parsed_u64(b@) {
                    Some(n) => Some(n),
                    None => self.board_id,
                },
                None => self.board_id,
            },
            c.status_column == self.status_column,
            c.status_map@ == self.status_map@,
            c.name_column == self.name_column,
            c.owner_column == self.owner_column,
    {
        let mut c = self;
        if let Some(t) = token {
            c.api_token = t;
        }
        if let Some(b) = board {
            if let Some(n) = parse_u64(b.as_str()) {
                c.board_id = Some(n);
            }
        }
        c
    }

    pub fn require_board_id(&self) -> (r: Result<u64, ConfigError>)
        ensures
            match self.board_id {
                Some(b) => r == Ok::<u64, ConfigError>(b),
                None => r == Err::<u64, ConfigError>(ConfigError::MissingBoardId),
            },
    {
        match self.board_id {
            Some(b) => Ok(b),
            None => Err(ConfigError::MissingBoardId),
        }
    }

    /// Accepts a loaded configuration only when it holds an API token.
    pub fn load_or_fail(loaded: Config) -> (r: Result<Config, ConfigError>)
        ensures
            loaded.api_token@.len() == 0 ==> r == Err::<Config, ConfigError>(
                ConfigError::MissingApiToken,
            ),
            loaded.api_token@.len() != 0 ==> r == Ok::<Config, ConfigError>(loaded),
    {
        if loaded.api_token.unicode_len() == 0 {
            Err(ConfigError::MissingApiToken)
        } else {
            Ok(loaded)
        }
    }

    /// The monday.com label to send for a beads status.
    pub fn status_label(&self, beads_status: &str) -> (r: String)
        ensures
            r@ == label_for_status(self.status_map@, beads_status@),
    {
        match self.status_map.get(beads_status) {
            Some(l) => l.clone(),
            None => String::from_str(beads_status),
        }
    }

    /// The beads status that a monday.com status label stands for.
    pub fn monday_label_to_beads_status(&self, label: &str) -> (r: String)
        ensures
            r@ == status_for_label(self.status_map@, label@),
    {
        let pairs = self.status_map.pairs();
        let n = pairs.len();
        let ghost m = self.status_map@;
        for i in 0..n
            invariant
                n == pairs@.len(),
                n == m.len(),
                m == self.status_map@,
                forall|j: int| 0 <= j < n ==> (#[trigger] pairs@[j].0@, pairs@[j].1@) == m[j],
                forall|j: int| 0 <= j < i ==> !pair_has_label(label@)(#[trigger] m[j]),
        {
            assert((pairs@[i as int].0@, pairs@[i as int].1@) == m[i as int]);
            if eq_ignore_ascii_case(pairs[i].1.as_str(), label) {
                proof {
                    lemma_first_match_found(m, pair_has_label(label@), i as int);
                }
                return pairs[i].0.clone();
            }
        }
        proof {
            lemma_first_match_none(m, pair_has_label(label@));
        }
        let lower = lowercase(label);
        replace_spaces(lower.as_str())
    }
}

/// The board an invocation works on: the `--board-id` override, else the
/// configured board.
pub fn effective_board_id(override_id: Option<u64>, cfg: &Config) -> (r: Result<u64, ConfigError>)
    ensures
        override_id matches Some(b) ==> r == Ok::<u64, ConfigError>(b),
        override_id is None ==> r == match cfg.board_id {
            Some(b) => Ok::<u64, ConfigError>(b),
            None => Err(ConfigError::MissingBoardId),
        },
{
    match override_id {
        Some(b) => Ok(b),
        None => cfg.require_board_id(),
    }
}

/// The API token an invocation uses: the `--token` override, else the
/// configured token.
pub fn effective_token(override_token: Option<&str>, cfg: &Config) -> (r: String)
    ensures
        r@ == match override_token {
            Some(t) => t@,
            None => cfg.api_token@,
        },
{
    match override_token {
        Some(t) => String::from_str(t),
        None => cfg.api_token.clone(),
    }
}

// ---------------------------------------------------------------------------
// Laws of the status map.
// ---------------------------------------------------------------------------

/// Reading a label right after setting it gives the label set.
pub proof fn lemma_insert_then_get(m: StatusMap, k: Seq<char>, v: Seq<char>)
    ensures
        label_of(upsert_pair(m@, k, v), k) == Some(v),
{
    let s = m@;
    let p = pair_has_key(k);
    let t = upsert_pair(s, k, v);
    lemma_first_match_spec(s, p);
    match first_match(s, p) {
        Some(i) => {
            assert(forall|j: int| 0 <= j < i ==> t[j] == s[j]);
            assert(is_first_match(t, p, i));
            lemma_first_match_found(t, p, i);
        },
        None => {
            assert(forall|j: int| 0 <= j < s.len() ==> t[j] == s[j]);
            assert(is_first_match(t, p, s.len() as int));
            lemma_first_match_found(t, p, s.len() as int);
        },
    }
}

/// When no two labels are alike, turning a status into its label and the
/// label back into a status gives the status again.
pub proof fn lemma_status_label_round_trip(m: StatusMap, status: Seq<char>)
    requires
        labels_distinct(m@),
        label_of(m@, status) is Some,
    ensures
        status_for_label(m@, label_for_status(m@, status)) == status,
{
    let s = m@;
    lemma_first_match_spec(s, pair_has_key(status));
    let i = first_match(s, pair_has_key(status))->0;
    let l = s[i].1;
    assert(label_for_status(s, status) == l);
    assert forall|j: int| 0 <= j < i implies !pair_has_label(l)(#[trigger] s[j]) by {
        assert(!same_ignoring_ascii_case(s[j].1, s[i].1));
    }
    assert(is_first_match(s, pair_has_label(l), i));
    lemma_first_match_found(s, pair_has_label(l), i);
}

/// A monday.com label that no pair of the map names, and that is ASCII,
/// stands for the beads status spelled like it with each letter A-Z lowered
/// and each space turned into an underscore; every other character is kept.
pub proof fn lemma_unmapped_ascii_label_status(m: Seq<(Seq<char>, Seq<char>)>, label: Seq<char>)
    requires
        forall|k: int| 0 <= k < m.len() ==> !same_ignoring_ascii_case(#[trigger] m[k].1, label),
        forall|i: int| 0 <= i < label.len() ==> (#[trigger] label[i] as int) < 128,
    ensures
        status_for_label(m, label).len() == label.len(),
        forall|i: int|
            0 <= i < label.len() ==> (#[trigger] status_for_label(m, label)[i]) as int == if label[i] == ' ' {
                '_' as int
            } else if 'A' <= label[i] <= 'Z' {
                label[i] as int + 32
            } else {
                label[i] as int
            },
{
    lemma_first_match_none(m, pair_has_label(label));
    lemma_lowercase_of_ascii(label);
    let r = status_for_label(m, label);
    assert forall|i: int| 0 <= i < label.len() implies (#[trigger] r[i]) as int == if label[i] == ' ' {
        '_' as int
    } else if 'A' <= label[i] <= 'Z' {
        label[i] as int + 32
    } else {
        label[i] as int
    } by {
        assert(lowercased(label)[i] as int == if 'A' <= label[i] <= 'Z' {
            label[i] as int + 32
        } else {
            label[i] as int
        });
    }
}

} // verus!
