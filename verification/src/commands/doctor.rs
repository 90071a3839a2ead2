//! `doctor`: diagnostic health checks. The probes (running `bd`, reading
//! files, querying monday.com) happen outside the library; `diagnose` turns
//! what they found into the list of checks and the verdict.

use vstd::prelude::*;
use crate::config::TOKEN_URL;
use crate::text::{decimal, join2, text_eq, u64_to_decimal};

verus! {

/// One health check.
#[derive(Debug)]
pub struct Check {
    pub name: String,
    pub status: String,
    pub message: String,
    pub hint: Option<String>,
}

/// The texts of a check: name, status, message and hint.
pub type CheckText = (Seq<char>, Seq<char>, Seq<char>, Option<Seq<char>>);

impl Check {
    pub open spec fn text(&self) -> CheckText {
        (self.name@, self.status@, self.message@, crate::text::opt_text(self.hint))
    }

    /// A check without a hint.
    pub fn new(name: &str, status: &str, message: String) -> (r: Check)
        ensures
            r.text() == (name@, status@, message@, None::<Seq<char>>),
    {
        Check { name: String::from_str(name), status: String::from_str(status), message, hint: None }
    }

    /// The same check with a hint.
    pub fn with_hint(self, hint: String) -> (r: Check)
        ensures
            r.text() == (self.name@, self.status@, self.message@, Some(hint@)),
    {
        Check { hint: Some(hint), ..self }
    }
}

/// What the monday.com `me` query gave.
#[derive(Debug)]
pub enum ApiProbe {
    Connected { user_name: String },
    Failed(String),
}

/// What the configured board gave.
#[derive(Debug)]
pub enum BoardProbe {
    NotConfigured,
    Found { name: String, columns: usize, groups: usize },
    NotFound(u64),
    Failed(String),
}

/// What the mapping file gave.
#[derive(Debug)]
pub enum MappingProbe {
    Absent,
    Loaded { links: usize },
    Invalid(String),
}

/// Everything the probes found.
#[derive(Debug)]
pub struct DoctorFacts {
    /// `bd --version` output, when `bd` could be run.
    pub bd_version: Option<String>,
    pub beads_dir_found: bool,
    /// The config file's path, when it exists.
    pub config_file: Option<String>,
    pub token_set: bool,
    pub token_from_env: bool,
    /// Read only when a token is set.
    pub api: ApiProbe,
    /// Read only when a token is set.
    pub board: BoardProbe,
    pub mapping: MappingProbe,
    pub status_column_set: bool,
}

pub open spec fn plain(name: Seq<char>, status: Seq<char>, message: Seq<char>) -> CheckText {
    (name, status, message, None)
}

pub open spec fn hinted(name: Seq<char>, status: Seq<char>, message: Seq<char>, hint: Seq<char>) -> CheckText {
    (name, status, message, Some(hint))
}

pub open spec fn bd_check(f: DoctorFacts) -> CheckText {
    match f.bd_version {
        Some(v) => plain("bd_cli"@, "pass"@, v@),
        None => hinted("bd_cli"@, "warn"@, "not found"@, "Install from https://github.com/steveyegge/beads"@),
    }
}

pub open spec fn beads_check(f: DoctorFacts) -> CheckText {
    if f.beads_dir_found {
        plain("beads_init"@, "pass"@, ".beads/ found"@)
    } else {
        hinted("beads_init"@, "warn"@, ".beads/ not found in cwd"@, "Run `bd init` to initialize"@)
    }
}

pub open spec fn config_check(f: DoctorFacts) -> CheckText {
    match f.config_file {
        Some(p) => plain("config_file"@, "pass"@, p@),
        None => hinted("config_file"@, "fail"@, "not found"@, "Run `mondaybot config init`"@),
    }
}

pub open spec fn token_check(f: DoctorFacts) -> CheckText {
    if !f.token_set {
        hinted(
            "api_token"@,
            "fail"@,
            "not set"@,
            "Get a token at "@ + TOKEN_URL@ + " then: mondaybot config set api_token <token>"@,
        )
    } else if f.token_from_env {
        plain("api_token"@, "pass"@, "set (from env)"@)
    } else {
        plain("api_token"@, "pass"@, "set (from config)"@)
    }
}

pub open spec fn api_check(f: DoctorFacts) -> CheckText {
    if !f.token_set {
        plain("api_reachable"@, "fail"@, "skipped (no API token)"@)
    } else {
        match f.api {
            ApiProbe::Connected { user_name } => plain("api_reachable"@, "pass"@, "connected as "@ + user_name@),
            ApiProbe::Failed(e) => hinted("api_reachable"@, "fail"@, e@, "Verify your token at "@ + TOKEN_URL@),
        }
    }
}

pub open spec fn board_check(f: DoctorFacts) -> CheckText {
    if !f.token_set {
        plain("board_id"@, "fail"@, "skipped (no API token)"@)
    } else {
        match f.board {
            BoardProbe::NotConfigured => hinted(
                "board_id"@,
                "warn"@,
                "not configured"@,
                "Run `mondaybot boards list` to find your board ID, then: mondaybot config set board_id <id>"@,
            ),
            BoardProbe::Found { name, columns, groups } => plain(
                "board_id"@,
                "pass"@,
                "Board '"@ + name@ + "' ("@ + decimal(columns as nat) + " columns, "@ + decimal(groups as nat)
                    + " groups)"@,
            ),
            BoardProbe::NotFound(id) => hinted(
                "board_id"@,
                "warn"@,
                "board "@ + decimal(id as nat) + " not found"@,
                "Run `mondaybot boards list` to see available boards"@,
            ),
            BoardProbe::Failed(e) => plain("board_id"@, "warn"@, "failed to query board: "@ + e@),
        }
    }
}

pub open spec fn mapping_checks(f: DoctorFacts) -> Seq<CheckText> {
    match f.mapping {
        MappingProbe::Absent => seq![
            plain("mapping_file"@, "info"@, "no links yet (.beads/monday_sync.json not found)"@),
        ],
        MappingProbe::Loaded { links } => {
            let c = plain("mapping_file"@, "info"@, decimal(links as nat) + " linked items"@);
            if links > 0 && !f.status_column_set {
                seq![
                    c,
                    hinted(
                        "status_column"@,
                        "warn"@,
                        "not set; status will not sync to monday.com"@,
                        "Set the status column by name or id: mondaybot config set status_column \"Status\""@,
                    ),
                ]
            } else {
                seq![c]
            }
        },
        MappingProbe::Invalid(e) => seq![plain("mapping_file"@, "warn"@, "exists but invalid: "@ + e@)],
    }
}

/// The checks that `doctor` reports, in order.
pub open spec fn expected_checks(f: DoctorFacts) -> Seq<CheckText> {
    seq![bd_check(f), beads_check(f), config_check(f), token_check(f), api_check(f), board_check(f)]
        + mapping_checks(f)
}

/// `doctor` fails when the config file is missing, no token is set, or the
/// API cannot be reached with the token.
pub open spec fn doctor_fails(f: DoctorFacts) -> bool {
    ||| f.config_file is None
    ||| !f.token_set
    ||| f.api is Failed
}

/// How many checks have the given status.
pub open spec fn count_status(checks: Seq<CheckText>, status: Seq<char>) -> nat
    decreases checks.len(),
{
    if checks.len() == 0 {
        0
    } else {
        count_status(checks.drop_last(), status) + if checks.last().1 == status {
            1nat
        } else {
            0nat
        }
    }
}

/// Some check has the given status exactly when the count is positive.
pub proof fn lemma_count_status_positive(checks: Seq<CheckText>, status: Seq<char>)
    ensures
        (count_status(checks, status) > 0) == (exists|i: int| 0 <= i < checks.len() && (#[trigger] checks[i]).1 == status),
    decreases checks.len(),
{
    if checks.len() > 0 {
        let p = checks.drop_last();
        lemma_count_status_positive(p, status);
        if count_status(p, status) > 0 {
            let i = choose|i: int| 0 <= i < p.len() && (#[trigger] p[i]).1 == status;
            assert(checks[i] == p[i]);
        } else if checks.last().1 == status {
            assert(checks[checks.len() - 1].1 == status);
        } else {
            assert forall|i: int| 0 <= i < checks.len() implies (#[trigger] checks[i]).1 != status by {
                if i < p.len() {
                    assert(checks[i] == p[i]);
                }
            }
        }
    }
}

/// `doctor` fails exactly when one of its checks has the status "fail".
pub proof fn lemma_doctor_fails_iff_a_check_fails(f: DoctorFacts)
    ensures
        doctor_fails(f) == (count_status(expected_checks(f), "fail"@) > 0),
{
    reveal_strlit("fail");
    reveal_strlit("pass");
    reveal_strlit("warn");
    reveal_strlit("info");
    assert("warn"@ != "fail"@) by {
        assert("warn"@[0] != "fail"@[0]);
    }
    assert("pass"@ != "fail"@) by {
        assert("pass"@[0] != "fail"@[0]);
    }
    assert("info"@ != "fail"@) by {
        assert("info"@[0] != "fail"@[0]);
    }
    let s = expected_checks(f);
    lemma_count_status_positive(s, "fail"@);
    assert(s[0] == bd_check(f));
    assert(s[1] == beads_check(f));
    assert(s[2] == config_check(f));
    assert(s[3] == token_check(f));
    assert(s[4] == api_check(f));
    assert(s[5] == board_check(f));
    if f.config_file is None {
        assert(s[2].1 == "fail"@);
    } else if !f.token_set {
        assert(s[3].1 == "fail"@);
    } else if f.api is Failed {
        assert(s[4].1 == "fail"@);
    } else {
        let mc = mapping_checks(f);
        assert(bd_check(f).1 != "fail"@);
        assert(beads_check(f).1 != "fail"@);
        assert(config_check(f).1 != "fail"@);
        assert(token_check(f).1 != "fail"@);
        assert(api_check(f).1 != "fail"@);
        assert(board_check(f).1 != "fail"@);
        assert forall|k: int| 0 <= k < mc.len() implies (#[trigger] mc[k]).1 != "fail"@ by {
            match f.mapping {
                MappingProbe::Absent => {},
                MappingProbe::Loaded { links } => {},
                MappingProbe::Invalid(e) => {},
            }
        }
        assert forall|i: int| 0 <= i < s.len() implies (#[trigger] s[i]).1 != "fail"@ by {
            if i >= 6 {
                assert(s[i] == mc[i - 6]);
            }
        }
    }
}

/// The result of the health checks.
#[derive(Debug)]
pub struct DoctorReport {
    pub checks: Vec<Check>,
    pub any_fail: bool,
}

/// The texts of a list of checks.
pub open spec fn check_texts(checks: Seq<Check>) -> Seq<CheckText> {
    checks.map_values(|c: Check| c.text())
}

fn push_check(checks: &mut Vec<Check>, c: Check)
    ensures
        check_texts(final(checks)@) == check_texts(old(checks)@).push(c.text()),
{
    let ghost before = checks@;
    checks.push(c);
    assert(check_texts(checks@) =~= check_texts(before).push(c.text()));
}

fn text3(a: &str, b: &str, c: &str) -> (r: String)
    ensures
        r@ == a@ + b@ + c@,
{
    let ab = join2(a, b);
    join2(ab.as_str(), c)
}

fn bd_cli_check(f: &DoctorFacts) -> (c: Check)
    ensures
        c.text() == bd_check(*f),
{
    match &f.bd_version {
        Some(v) => Check::new("bd_cli", "pass", v.clone()),
        None => Check::new("bd_cli", "warn", String::from_str("not found")).with_hint(
            String::from_str("Install from https://github.com/steveyegge/beads"),
        ),
    }
}

fn beads_init_check(f: &DoctorFacts) -> (c: Check)
    ensures
        c.text() == beads_check(*f),
{
    if f.beads_dir_found {
        Check::new("beads_init", "pass", String::from_str(".beads/ found"))
    } else {
        Check::new("beads_init", "warn", String::from_str(".beads/ not found in cwd")).with_hint(
            String::from_str("Run `bd init` to initialize"),
        )
    }
}

fn config_file_check(f: &DoctorFacts) -> (c: Check)
    ensures
        c.text() == config_check(*f),
{
    match &f.config_file {
        Some(p) => Check::new("config_file", "pass", p.clone()),
        None => Check::new("config_file", "fail", String::from_str("not found")).with_hint(
            String::from_str("Run `mondaybot config init`"),
        ),
    }
}

fn api_token_check(f: &DoctorFacts) -> (c: Check)
    ensures
        c.text() == token_check(*f),
{
    if !f.token_set {
        Check::new("api_token", "fail", String::from_str("not set")).with_hint(
            text3("Get a token at ", TOKEN_URL, " then: mondaybot config set api_token <token>"),
        )
    } else if f.token_from_env {
        Check::new("api_token", "pass", String::from_str("set (from env)"))
    } else {
        Check::new("api_token", "pass", String::from_str("set (from config)"))
    }
}

fn api_reachable_check(f: &DoctorFacts) -> (c: Check)
    ensures
        c.text() == api_check(*f),
{
    if !f.token_set {
        return Check::new("api_reachable", "fail", String::from_str("skipped (no API token)"));
    }
    match &f.api {
        ApiProbe::Connected { user_name } => Check::new(
            "api_reachable",
            "pass",
            join2("connected as ", user_name.as_str()),
        ),
        ApiProbe::Failed(e) => Check::new("api_reachable", "fail", e.clone()).with_hint(
            join2("Verify your token at ", TOKEN_URL),
        ),
    }
}

fn board_id_check(f: &DoctorFacts) -> (c: Check)
    ensures
        c.text() == board_check(*f),
{
    if !f.token_set {
        return Check::new("board_id", "fail", String::from_str("skipped (no API token)"));
    }
    match &f.board {
        BoardProbe::NotConfigured => Check::new("board_id", "warn", String::from_str("not configured")).with_hint(
            String::from_str(
                "Run `mondaybot boards list` to find your board ID, then: mondaybot config set board_id <id>",
            ),
        ),
        BoardProbe::Found { name, columns, groups } => {
            let cols = u64_to_decimal(*columns as u64);
            let grps = u64_to_decimal(*groups as u64);
            let a = text3("Board '", name.as_str(), "' (");
            let b = text3(a.as_str(), cols.as_str(), " columns, ");
            let m = text3(b.as_str(), grps.as_str(), " groups)");
            Check::new("board_id", "pass", m)
        },
        BoardProbe::NotFound(id) => {
            let ids = u64_to_decimal(*id);
            Check::new("board_id", "warn", text3("board ", ids.as_str(), " not found")).with_hint(
                String::from_str("Run `mondaybot boards list` to see available boards"),
            )
        },
        BoardProbe::Failed(e) => Check::new("board_id", "warn", join2("failed to query board: ", e.as_str())),
    }
}

fn mapping_file_checks(f: &DoctorFacts, checks: &mut Vec<Check>)
    ensures
        check_texts(final(checks)@) == check_texts(old(checks)@) + mapping_checks(*f),
{
    let ghost before = check_texts(checks@);
    match &f.mapping {
        MappingProbe::Absent => push_check(
            checks,
            Check::new(
                "mapping_file",
                "info",
                String::from_str("no links yet (.beads/monday_sync.json not found)"),
            ),
        ),
        MappingProbe::Loaded { links } => {
            let n = u64_to_decimal(*links as u64);
            push_check(checks, Check::new("mapping_file", "info", join2(n.as_str(), " linked items")));
            if *links > 0 && !f.status_column_set {
                push_check(
                    checks,
                    Check::new(
                        "status_column",
                        "warn",
                        String::from_str("not set; status will not sync to monday.com"),
                    ).with_hint(
                        String::from_str(
                            "Set the status column by name or id: mondaybot config set status_column \"Status\"",
                        ),
                    ),
                );
            }
        },
        MappingProbe::Invalid(e) => push_check(
            checks,
            Check::new("mapping_file", "warn", join2("exists but invalid: ", e.as_str())),
        ),
    }
    assert(check_texts(checks@) =~= before + mapping_checks(*f));
}

/// Turns what the probes found into the checks and the verdict.
pub fn diagnose(f: &DoctorFacts) -> (r: DoctorReport)
    ensures
        check_texts(r.checks@) == expected_checks(*f),
        r.any_fail == doctor_fails(*f),
        r.any_fail == (count_status(check_texts(r.checks@), "fail"@) > 0),
{
    let mut checks: Vec<Check> = Vec::new();
    push_check(&mut checks, bd_cli_check(f));
    push_check(&mut checks, beads_init_check(f));
    push_check(&mut checks, config_file_check(f));
    push_check(&mut checks, api_token_check(f));
    push_check(&mut checks, api_reachable_check(f));
    push_check(&mut checks, board_id_check(f));
    assert(check_texts(checks@) =~= seq![bd_check(*f), beads_check(*f), config_check(*f), token_check(*f), api_check(*f), board_check(*f)]);
    mapping_file_checks(f, &mut checks);
    let any_fail = f.config_file.is_none() || !f.token_set || match &f.api {
        ApiProbe::Failed(_) => true,
        ApiProbe::Connected { .. } => false,
    };
    proof {
        lemma_doctor_fails_iff_a_check_fails(*f);
    }
    DoctorReport { checks, any_fail }
}

impl DoctorReport {
    /// How many checks have the given status.
    pub fn count(&self, status: &str) -> (n: usize)
        ensures
            n == count_status(check_texts(self.checks@), status@),
    {
        let mut n: usize = 0;
        let len = self.checks.len();
        for i in 0..len
            invariant
                len == self.checks@.len(),
                n == count_status(check_texts(self.checks@.subrange(0, i as int)), status@),
                n <= i,
        {
            assert(check_texts(self.checks@.subrange(0, i + 1)).drop_last() =~= check_texts(
                self.checks@.subrange(0, i as int),
            ));
            if text_eq(self.checks[i].status.as_str(), status) {
                n = n + 1;
            }
        }
        assert(self.checks@.subrange(0, len as int) =~= self.checks@);
        n
    }

    /// "<p> passed, <w> warnings, <f> failed".
    pub fn summary(&self) -> (s: String)
        ensures
            s@ == decimal(count_status(check_texts(self.checks@), "pass"@)) + " passed, "@ + decimal(
                count_status(check_texts(self.checks@), "warn"@),
            ) + " warnings, "@ + decimal(count_status(check_texts(self.checks@), "fail"@))
                + " failed"@,
    {
        let p = u64_to_decimal(self.count("pass") as u64);
        let w = u64_to_decimal(self.count("warn") as u64);
        let f = u64_to_decimal(self.count("fail") as u64);
        let a = text3(p.as_str(), " passed, ", w.as_str());
        let b = text3(a.as_str(), " warnings, ", f.as_str());
        join2(b.as_str(), " failed")
    }
}

} // verus!
