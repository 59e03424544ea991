//! The table of commands with what speaks for each of them at the moment.
//!
//! Building it takes a few facts out of the database first. `CacheBuild` says which
//! statement to run next, and keeps what the replies have told.
use super::listing::listing;
use super::statement::{binds, text_view, Statement, StatementView, Value, ValueView};
use super::History;
use vstd::prelude::*;

verus! {

/// How many of the commands before one count as its context.
pub const LOOKBACK: u16 = 3;

/// The time span, in seconds, of a history whose commands all ran at one moment.
pub const SINGLE_MOMENT: i128 = 3600;

/// Removes the table.
pub const DROP_TABLE: &'static str = "DROP TABLE IF EXISTS temp.contextual_commands;";

/// Finds when the first and the last command ran.
pub const WHEN_RUN_RANGE: &'static str = "SELECT MIN(when_run), MAX(when_run) FROM commands";

/// Finds how often the most frequent command was run.
pub const MAX_OCCURRENCES: &'static str = "SELECT COUNT(*) AS c FROM commands GROUP BY cmd ORDER BY c DESC LIMIT 1";

/// Finds how often the most selected command was selected.
pub const MAX_SELECTED_OCCURRENCES: &'static str = "SELECT COUNT(*) AS c FROM commands WHERE selected = 1 GROUP BY cmd ORDER BY c DESC LIMIT 1";

/// Finds the length of the longest command.
pub const MAX_LENGTH: &'static str = "SELECT MAX(LENGTH(cmd)) FROM commands";

/// Builds the table, one row for each command, its rank still open.
pub const CREATE_TABLE: &'static str = "CREATE TEMP TABLE contextual_commands AS SELECT
    id, cmd, cmd_tpl, session_id, when_run, exit_code, selected, dir,

    /* to be filled in later */
    0.0 AS rank,

    /* length of the command string */
    LENGTH(c.cmd) / :max_length AS length_factor,

    /* age of the last execution of this command (0.0 is new, 1.0 is old) */
    MIN((:when_run_max - when_run) / :history_duration) AS age_factor,

    /* average error state (1: always successful, 0: always errors) */
    SUM(CASE WHEN exit_code = 0 THEN 1.0 ELSE 0.0 END) / COUNT(*) as exit_factor,

    /* recent failure (1 if failed recently, 0 if not) */
    MAX(CASE WHEN exit_code != 0 AND :now - when_run < 120 THEN 1.0 ELSE 0.0 END) AS recent_failure_factor,

    /* percentage run in this directory (1: always run in this directory, 0: never run in this directory) */
    SUM(CASE WHEN dir = :directory THEN 1.0 ELSE 0.0 END) / COUNT(*) as dir_factor,

    /* percentage of time selected in this directory (1: only selected in this dir, 0: only selected elsewhere) */
    SUM(CASE WHEN dir = :directory AND selected = 1 THEN 1.0 ELSE 0.0 END) / MAX(SUM(CASE WHEN selected = 1 THEN 1.0 ELSE 0.0 END), 1) as selected_dir_factor,

    /* average contextual overlap of this command (0: none of the last 3 commands has ever overlapped with this command, 1: all of the last three commands always overlap with this command) */
    SUM((
      SELECT COUNT(DISTINCT c2.cmd_tpl) FROM commands c2
      WHERE c2.id >= c.id - :lookback AND c2.id < c.id AND c2.cmd_tpl IN (:last_commands0, :last_commands1, :last_commands2)
    ) / :lookback_f64) / COUNT(*) AS overlap_factor,

    /* average overlap with the last command (0: this command never follows the last command, 1: this command always follows the last command) */
    SUM((SELECT COUNT(*) FROM commands c2 WHERE c2.id = c.id - 1 AND c2.cmd_tpl = :last_commands0)) * 1.0 / COUNT(*) AS immediate_overlap_factor,

    /* percentage selected (1: this is the most commonly selected command, 0: this command is never selected) */
    SUM(CASE WHEN selected = 1 THEN 1.0 ELSE 0.0 END) / :max_selected_occurrences AS selected_occurrences_factor,

    /* percentage of time this command is run relative to the most common command (1: this is the most common command, 0: this is the least common command) */
    COUNT(*) / :max_occurrences AS occurrences_factor

    FROM commands c WHERE when_run > :start_time AND when_run < :end_time GROUP BY cmd ORDER BY id DESC;";

/// Fills in the ranks.
pub const RANK_TABLE: &'static str = "UPDATE contextual_commands
    SET rank = nn_rank(age_factor, length_factor, exit_factor,
                       recent_failure_factor, selected_dir_factor, dir_factor,
                       overlap_factor, immediate_overlap_factor,
                       selected_occurrences_factor, occurrences_factor);";

/// Indexes the table.
pub const INDEX_TABLE: &'static str = "CREATE INDEX temp.MyIndex ON contextual_commands(id);";

/// What the table is built for.
#[derive(Debug)]
pub struct CacheRequest {
    pub dir: String,
    pub session_id: Option<String>,
    pub start_time: Option<i64>,
    pub end_time: Option<i64>,
    pub now: Option<i64>,
}

/// What a `CacheRequest` stands for.
#[verifier::ext_equal]
pub struct CacheRequestView {
    pub dir: Seq<char>,
    pub session_id: Option<Seq<char>>,
    pub start_time: Option<i64>,
    pub end_time: Option<i64>,
    pub now: Option<i64>,
}

impl View for CacheRequest {
    type V = CacheRequestView;

    open spec fn view(&self) -> CacheRequestView {
        CacheRequestView {
            dir: self.dir@,
            session_id: text_view(self.session_id),
            start_time: self.start_time,
            end_time: self.end_time,
            now: self.now,
        }
    }
}

/// What is known of the history while the table is built.
pub struct CacheFacts {
    pub last_commands: (String, String, String),
    pub when_run_min: i64,
    pub when_run_max: i64,
    pub max_occurrences: i64,
    pub max_selected_occurrences: i64,
    pub max_length: i64,
}

/// What `CacheFacts` stand for.
#[verifier::ext_equal]
pub struct CacheFactsView {
    pub last_commands: Seq<Seq<char>>,
    pub when_run_min: i64,
    pub when_run_max: i64,
    pub max_occurrences: i64,
    pub max_selected_occurrences: i64,
    pub max_length: i64,
}

impl View for CacheFacts {
    type V = CacheFactsView;

    open spec fn view(&self) -> CacheFactsView {
        CacheFactsView {
            last_commands: seq![
                self.last_commands.0@,
                self.last_commands.1@,
                self.last_commands.2@,
            ],
            when_run_min: self.when_run_min,
            when_run_max: self.when_run_max,
            max_occurrences: self.max_occurrences,
            max_selected_occurrences: self.max_selected_occurrences,
            max_length: self.max_length,
        }
    }
}

/// Which reply is awaited next.
#[derive(Copy, Clone, Debug, PartialEq, Eq, Structural)]
pub enum CacheStage {
    SessionTemplates,
    AllTemplates,
    Dropping,
    Range,
    Occurrences,
    SelectedOccurrences,
    Length,
    Time,
    Creating,
    Ranking,
    Indexing,
    Finished,
}

/// How far the table has come.
pub struct CacheBuild {
    pub request: CacheRequest,
    pub stage: CacheStage,
    pub facts: CacheFacts,
}

/// What a `CacheBuild` stands for.
#[verifier::ext_equal]
pub struct CacheBuildView {
    pub request: CacheRequestView,
    pub stage: CacheStage,
    pub facts: CacheFactsView,
}

impl View for CacheBuild {
    type V = CacheBuildView;

    open spec fn view(&self) -> CacheBuildView {
        CacheBuildView { request: self.request@, stage: self.stage, facts: self.facts@ }
    }
}

/// A reply that the table was waiting for.
pub enum CacheReply {
    /// The templates of the listed commands.
    Templates(Vec<String>),
    /// The statement was run.
    Executed,
    /// The two values of the row.
    Range { min: i64, max: i64 },
    /// The value of the first row, if there is one.
    Maximum(Option<i64>),
    /// The seconds since the beginning of 1970.
    Time(u64),
}

/// What to do next to build the table.
pub enum CacheAction {
    /// List commands, and take their templates.
    Templates(Statement),
    /// Run a statement.
    Execute(Statement),
    /// Read a row of two integers.
    Range(Statement),
    /// Read the integer in the first row.
    Maximum(Statement),
    /// Look at the clock.
    Time,
    /// Nothing: the table is there.
    Stop,
}

/// What a `CacheAction` stands for.
pub enum CacheActionView {
    Templates(StatementView),
    Execute(StatementView),
    Range(StatementView),
    Maximum(StatementView),
    Time,
    Stop,
}

impl View for CacheAction {
    type V = CacheActionView;

    open spec fn view(&self) -> CacheActionView {
        match self {
            CacheAction::Templates(statement) => CacheActionView::Templates(statement@),
            CacheAction::Execute(statement) => CacheActionView::Execute(statement@),
            CacheAction::Range(statement) => CacheActionView::Range(statement@),
            CacheAction::Maximum(statement) => CacheActionView::Maximum(statement@),
            CacheAction::Time => CacheActionView::Time,
            CacheAction::Stop => CacheActionView::Stop,
        }
    }
}

/// The templates that count as context, with empty ones where there are too few.
pub open spec fn context(templates: Seq<String>) -> Seq<Seq<char>> {
    Seq::new(
        LOOKBACK as nat,
        |i: int| if i < templates.len() { templates[i]@ } else { Seq::empty() },
    )
}

/// The time that the history spans, in seconds.
pub open spec fn history_duration(when_run_min: int, when_run_max: int) -> int {
    if when_run_min == when_run_max {
        SINGLE_MOMENT as int
    } else {
        when_run_max - when_run_min
    }
}

/// A statement without parameters.
pub open spec fn plain(sql: Seq<char>) -> StatementView {
    StatementView { sql, params: Seq::empty() }
}

/// A value, or another where it is missing.
pub open spec fn or_else(value: Option<i64>, other: i64) -> i64 {
    match value {
        Some(v) => v,
        None => other,
    }
}

/// The statement that builds the table. Times that were not asked for are the earliest
/// and the present one.
pub open spec fn creation(
    request: CacheRequestView,
    facts: CacheFactsView,
    time: i64,
) -> StatementView {
    StatementView {
        sql: CREATE_TABLE@,
        params: seq![
            (":when_run_max"@, ValueView::Double(facts.when_run_max as int)),
            (
                ":history_duration"@,
                ValueView::Double(
                    history_duration(facts.when_run_min as int, facts.when_run_max as int),
                ),
            ),
            (":directory"@, ValueView::Text(request.dir)),
            (":max_occurrences"@, ValueView::Double(facts.max_occurrences as int)),
            (":max_length"@, ValueView::Double(facts.max_length as int)),
            (
                ":max_selected_occurrences"@,
                ValueView::Double(facts.max_selected_occurrences as int),
            ),
            (":lookback"@, ValueView::Integer(LOOKBACK as int)),
            (":lookback_f64"@, ValueView::Double(LOOKBACK as int)),
            (":last_commands0"@, ValueView::Text(facts.last_commands[0])),
            (":last_commands1"@, ValueView::Text(facts.last_commands[1])),
            (":last_commands2"@, ValueView::Text(facts.last_commands[2])),
            (":start_time"@, ValueView::Integer(or_else(request.start_time, 0) as int)),
            (":end_time"@, ValueView::Integer(or_else(request.end_time, time) as int)),
            (":now"@, ValueView::Integer(or_else(request.now, time) as int)),
        ],
    }
}

/// Whether the stage awaits such a reply.
pub open spec fn cache_awaits(stage: CacheStage, reply: CacheReply) -> bool {
    match stage {
        CacheStage::SessionTemplates | CacheStage::AllTemplates => reply is Templates,
        CacheStage::Dropping | CacheStage::Creating | CacheStage::Ranking
        | CacheStage::Indexing => reply is Executed,
        CacheStage::Range => reply is Range,
        CacheStage::Occurrences | CacheStage::SelectedOccurrences
        | CacheStage::Length => reply is Maximum,
        CacheStage::Time => reply is Time,
        CacheStage::Finished => false,
    }
}

/// The table after a reply, and what to do next.
pub open spec fn cache_after(build: CacheBuildView, reply: CacheReply) -> (
    CacheBuildView,
    CacheActionView,
) {
    let request = build.request;
    let facts = build.facts;
    match (build.stage, reply) {
        (CacheStage::SessionTemplates, CacheReply::Templates(templates)) => if templates@.len()
            < LOOKBACK {
            (
                CacheBuildView { request, stage: CacheStage::AllTemplates, facts },
                CacheActionView::Templates(listing(None, LOOKBACK as i16, 0, false)),
            )
        } else {
            (
                CacheBuildView {
                    request,
                    stage: CacheStage::Dropping,
                    facts: CacheFactsView { last_commands: context(templates@), ..facts },
                },
                CacheActionView::Execute(plain(DROP_TABLE@)),
            )
        },
        (CacheStage::AllTemplates, CacheReply::Templates(templates)) => (
            CacheBuildView {
                request,
                stage: CacheStage::Dropping,
                facts: CacheFactsView { last_commands: context(templates@), ..facts },
            },
            CacheActionView::Execute(plain(DROP_TABLE@)),
        ),
        (CacheStage::Dropping, CacheReply::Executed) => (
            CacheBuildView { request, stage: CacheStage::Range, facts },
            CacheActionView::Range(plain(WHEN_RUN_RANGE@)),
        ),
        (CacheStage::Range, CacheReply::Range { min, max }) => (
            CacheBuildView {
                request,
                stage: CacheStage::Occurrences,
                facts: CacheFactsView { when_run_min: min, when_run_max: max, ..facts },
            },
            CacheActionView::Maximum(plain(MAX_OCCURRENCES@)),
        ),
        (CacheStage::Occurrences, CacheReply::Maximum(maximum)) => (
            CacheBuildView {
                request,
                stage: CacheStage::SelectedOccurrences,
                facts: CacheFactsView { max_occurrences: or_else(maximum, 1), ..facts },
            },
            CacheActionView::Maximum(plain(MAX_SELECTED_OCCURRENCES@)),
        ),
        (CacheStage::SelectedOccurrences, CacheReply::Maximum(maximum)) => (
            CacheBuildView {
                request,
                stage: CacheStage::Length,
                facts: CacheFactsView { max_selected_occurrences: or_else(maximum, 1), ..facts },
            },
            CacheActionView::Maximum(plain(MAX_LENGTH@)),
        ),
        (CacheStage::Length, CacheReply::Maximum(maximum)) => (
            CacheBuildView {
                request,
                stage: CacheStage::Time,
                facts: CacheFactsView { max_length: or_else(maximum, 100), ..facts },
            },
            CacheActionView::Time,
        ),
        (CacheStage::Time, CacheReply::Time(seconds)) => (
            CacheBuildView { request, stage: CacheStage::Creating, facts },
            CacheActionView::Execute(creation(request, facts, seconds as i64)),
        ),
        (CacheStage::Creating, CacheReply::Executed) => (
            CacheBuildView { request, stage: CacheStage::Ranking, facts },
            CacheActionView::Execute(plain(RANK_TABLE@)),
        ),
        (CacheStage::Ranking, CacheReply::Executed) => (
            CacheBuildView { request, stage: CacheStage::Indexing, facts },
            CacheActionView::Execute(plain(INDEX_TABLE@)),
        ),
        _ => (CacheBuildView { request, stage: CacheStage::Finished, facts }, CacheActionView::Stop),
    }
}

/// The first templates of a list, empty ones where there are too few.
fn take_context(templates: Vec<String>) -> (last: (String, String, String))
    ensures
        seq![last.0@, last.1@, last.2@] == context(templates@),
{
    let mut templates = templates;
    let ghost all = templates@;
    while templates.len() < LOOKBACK as usize
        invariant
            all.len() <= templates@.len(),
            all.len() < LOOKBACK ==> templates@.len() <= LOOKBACK,
            forall|i: int| 0 <= i < all.len() ==> templates@[i] == all[i],
            forall|i: int|
                all.len() <= i < templates@.len() ==> (#[trigger] templates@[i])@ == Seq::<
                    char,
                >::empty(),
        decreases LOOKBACK - templates@.len(),
    {
        templates.push(String::new());
    }
    let last = (templates[0].clone(), templates[1].clone(), templates[2].clone());
    assert(seq![last.0@, last.1@, last.2@] =~= context(all));
    last
}

fn creation_statement(request: &CacheRequest, facts: &CacheFacts, time: i64) -> (statement:
    Statement)
    ensures
        statement@ == creation(request@, facts@, time),
{
    let duration: i128 = if facts.when_run_min == facts.when_run_max {
        SINGLE_MOMENT
    } else {
        facts.when_run_max as i128 - facts.when_run_min as i128
    };
    let start_time: i64 = match request.start_time {
        Some(t) => t,
        None => 0,
    };
    let end_time: i64 = match request.end_time {
        Some(t) => t,
        None => time,
    };
    let now: i64 = match request.now {
        Some(t) => t,
        None => time,
    };
    let statement = Statement::new(CREATE_TABLE).bind(
        ":when_run_max",
        Value::Double(facts.when_run_max as i128),
    ).bind(":history_duration", Value::Double(duration)).bind_text(
        ":directory",
        request.dir.as_str(),
    ).bind(":max_occurrences", Value::Double(facts.max_occurrences as i128)).bind(
        ":max_length",
        Value::Double(facts.max_length as i128),
    ).bind(
        ":max_selected_occurrences",
        Value::Double(facts.max_selected_occurrences as i128),
    ).bind_integer(":lookback", LOOKBACK as i64).bind(
        ":lookback_f64",
        Value::Double(LOOKBACK as i128),
    ).bind_text(":last_commands0", facts.last_commands.0.as_str()).bind_text(
        ":last_commands1",
        facts.last_commands.1.as_str(),
    ).bind_text(":last_commands2", facts.last_commands.2.as_str()).bind_integer(
        ":start_time",
        start_time,
    ).bind_integer(":end_time", end_time).bind_integer(":now", now);
    assert(statement@ =~= creation(request@, facts@, time));
    statement
}

impl History {
    /// Begins to build the table: first the context is asked for, in the session.
    pub fn build_cache_table(
        dir: &str,
        session_id: &Option<String>,
        start_time: Option<i64>,
        end_time: Option<i64>,
        now: Option<i64>,
    ) -> (next: (CacheBuild, CacheAction))
        ensures
            next.0.request@ == (CacheRequestView {
                dir: dir@,
                session_id: text_view(*session_id),
                start_time,
                end_time,
                now,
            }),
            next.0.stage == CacheStage::SessionTemplates,
            next.0.facts@ == (CacheFactsView {
                last_commands: context(Seq::empty()),
                when_run_min: 0,
                when_run_max: 0,
                max_occurrences: 0,
                max_selected_occurrences: 0,
                max_length: 0,
            }),
            next.1@ == CacheActionView::Templates(
                listing(text_view(*session_id), LOOKBACK as i16, 0, false),
            ),
    {
        let request = CacheRequest {
            dir: dir.to_owned(),
            session_id: session_id.clone(),
            start_time,
            end_time,
            now,
        };
        let facts = CacheFacts {
            last_commands: (String::new(), String::new(), String::new()),
            when_run_min: 0,
            when_run_max: 0,
            max_occurrences: 0,
            max_selected_occurrences: 0,
            max_length: 0,
        };
        assert(facts@.last_commands =~= context(Seq::empty()));
        (
            CacheBuild { request, stage: CacheStage::SessionTemplates, facts },
            CacheAction::Templates(History::commands(session_id, LOOKBACK as i16, 0, false)),
        )
    }
}

impl CacheBuild {
    /// Takes in a reply, and says what to do next to build the table.
    pub fn step(self, reply: CacheReply) -> (next: (CacheBuild, CacheAction))
        requires
            cache_awaits(self.stage, reply),
        ensures
            (next.0@, next.1@) == cache_after(self@, reply),
    {
        let ghost before = self@;
        let request = self.request;
        let mut facts = self.facts;
        let (stage, action) = match (self.stage, reply) {
            (CacheStage::SessionTemplates, CacheReply::Templates(templates)) => {
                if templates.len() < LOOKBACK as usize {
                    (
                        CacheStage::AllTemplates,
                        CacheAction::Templates(
                            History::commands(&None, LOOKBACK as i16, 0, false),
                        ),
                    )
                } else {
                    facts.last_commands = take_context(templates);
                    (CacheStage::Dropping, CacheAction::Execute(Statement::new(DROP_TABLE)))
                }
            },
            (CacheStage::AllTemplates, CacheReply::Templates(templates)) => {
                facts.last_commands = take_context(templates);
                (CacheStage::Dropping, CacheAction::Execute(Statement::new(DROP_TABLE)))
            },
            (CacheStage::Dropping, CacheReply::Executed) => {
                (CacheStage::Range, CacheAction::Range(Statement::new(WHEN_RUN_RANGE)))
            },
            (CacheStage::Range, CacheReply::Range { min, max }) => {
                facts.when_run_min = min;
                facts.when_run_max = max;
                (CacheStage::Occurrences, CacheAction::Maximum(Statement::new(MAX_OCCURRENCES)))
            },
            (CacheStage::Occurrences, CacheReply::Maximum(maximum)) => {
                facts.max_occurrences = maximum.unwrap_or(1);
                (
                    CacheStage::SelectedOccurrences,
                    CacheAction::Maximum(Statement::new(MAX_SELECTED_OCCURRENCES)),
                )
            },
            (CacheStage::SelectedOccurrences, CacheReply::Maximum(maximum)) => {
                facts.max_selected_occurrences = maximum.unwrap_or(1);
                (CacheStage::Length, CacheAction::Maximum(Statement::new(MAX_LENGTH)))
            },
            (CacheStage::Length, CacheReply::Maximum(maximum)) => {
                facts.max_length = maximum.unwrap_or(100);
                (CacheStage::Time, CacheAction::Time)
            },
            (CacheStage::Time, CacheReply::Time(seconds)) => {
                let time: i64 = #[verifier::truncate]
                (seconds as i64);
                (
                    CacheStage::Creating,
                    CacheAction::Execute(creation_statement(&request, &facts, time)),
                )
            },
            (CacheStage::Creating, CacheReply::Executed) => {
                (CacheStage::Ranking, CacheAction::Execute(Statement::new(RANK_TABLE)))
            },
            (CacheStage::Ranking, CacheReply::Executed) => {
                (CacheStage::Indexing, CacheAction::Execute(Statement::new(INDEX_TABLE)))
            },
            _ => (CacheStage::Finished, CacheAction::Stop),
        };
        let next = CacheBuild { request, stage, facts };
        assert(next@ =~= cache_after(before, reply).0);
        (next, action)
    }
}

/// The age of a command is measured against a time span that is never zero.
pub proof fn law_history_duration_is_positive(when_run_min: int, when_run_max: int)
    requires
        when_run_min <= when_run_max,
    ensures
        history_duration(when_run_min, when_run_max) > 0,
{
}

/// The context always has its full length: the templates that are there, then empty ones.
pub proof fn law_context_is_full(templates: Seq<String>)
    ensures
        context(templates).len() == LOOKBACK,
        forall|i: int|
            0 <= i < LOOKBACK ==> #[trigger] context(templates)[i] == if i < templates.len() {
                templates[i]@
            } else {
                Seq::<char>::empty()
            },
{
}

/// Once the context is known, the table is built in this order and from these facts: the
/// old table is removed, the facts are read, the clock is read, and the table is
/// created, ranked and indexed.
pub proof fn law_table_is_built_from_the_replies(
    start: CacheBuildView,
    templates: Vec<String>,
    min: i64,
    max: i64,
    occurrences: Option<i64>,
    selected: Option<i64>,
    length: Option<i64>,
    seconds: u64,
)
    requires
        start.stage == CacheStage::AllTemplates || (start.stage == CacheStage::SessionTemplates
            && templates@.len() >= LOOKBACK),
    ensures
        ({
            let (b0, a0) = cache_after(start, CacheReply::Templates(templates));
            let (b1, a1) = cache_after(b0, CacheReply::Executed);
            let (b2, a2) = cache_after(b1, CacheReply::Range { min, max });
            let (b3, a3) = cache_after(b2, CacheReply::Maximum(occurrences));
            let (b4, a4) = cache_after(b3, CacheReply::Maximum(selected));
            let (b5, a5) = cache_after(b4, CacheReply::Maximum(length));
            let (b6, a6) = cache_after(b5, CacheReply::Time(seconds));
            let (b7, a7) = cache_after(b6, CacheReply::Executed);
            let (b8, a8) = cache_after(b7, CacheReply::Executed);
            let (b9, a9) = cache_after(b8, CacheReply::Executed);
            let facts = CacheFactsView {
                last_commands: context(templates@),
                when_run_min: min,
                when_run_max: max,
                max_occurrences: or_else(occurrences, 1),
                max_selected_occurrences: or_else(selected, 1),
                max_length: or_else(length, 100),
            };
            &&& a0 == CacheActionView::Execute(plain(DROP_TABLE@))
            &&& a1 == CacheActionView::Range(plain(WHEN_RUN_RANGE@))
            &&& a2 == CacheActionView::Maximum(plain(MAX_OCCURRENCES@))
            &&& a3 == CacheActionView::Maximum(plain(MAX_SELECTED_OCCURRENCES@))
            &&& a4 == CacheActionView::Maximum(plain(MAX_LENGTH@))
            &&& a5 is Time
            &&& a6 == CacheActionView::Execute(creation(start.request, facts, seconds as i64))
            &&& a7 == CacheActionView::Execute(plain(RANK_TABLE@))
            &&& a8 == CacheActionView::Execute(plain(INDEX_TABLE@))
            &&& a9 is Stop
            &&& b9.stage == CacheStage::Finished
        }),
{
}

/// A session with too few commands has the context of all sessions.
pub proof fn law_short_sessions_use_all_commands(
    start: CacheBuildView,
    templates: Vec<String>,
)
    requires
        start.stage == CacheStage::SessionTemplates,
        templates@.len() < LOOKBACK,
    ensures
        cache_after(start, CacheReply::Templates(templates)).0.stage
            == CacheStage::AllTemplates,
        cache_after(start, CacheReply::Templates(templates)).1
            == CacheActionView::Templates(listing(None, LOOKBACK as i16, 0, false)),
{
}

/// How many replies the table can still take.
pub open spec fn replies_left(stage: CacheStage) -> nat {
    match stage {
        CacheStage::SessionTemplates => 11,
        CacheStage::AllTemplates => 10,
        CacheStage::Dropping => 9,
        CacheStage::Range => 8,
        CacheStage::Occurrences => 7,
        CacheStage::SelectedOccurrences => 6,
        CacheStage::Length => 5,
        CacheStage::Time => 4,
        CacheStage::Creating => 3,
        CacheStage::Ranking => 2,
        CacheStage::Indexing => 1,
        CacheStage::Finished => 0,
    }
}

/// Every reply brings the table nearer to its end, and it ends with the action that says
/// so.
pub proof fn law_a_table_comes_to_an_end(build: CacheBuildView, reply: CacheReply)
    requires
        cache_awaits(build.stage, reply),
    ensures
        replies_left(cache_after(build, reply).0.stage) < replies_left(build.stage),
        cache_after(build, reply).0.stage == CacheStage::Finished <==> cache_after(
            build,
            reply,
        ).1 is Stop,
{
}

/// The age of every command lies between nothing and the time span of the history: the
/// newest has none, and the oldest of several moments has all of it.
pub proof fn law_ages_fill_the_history(when_run_min: int, when_run_max: int, when_run: int)
    requires
        when_run_min <= when_run <= when_run_max,
    ensures
        0 <= when_run_max - when_run <= history_duration(when_run_min, when_run_max),
        when_run_min < when_run_max ==> when_run_max - when_run_min == history_duration(
            when_run_min,
            when_run_max,
        ),
        when_run_min == when_run_max ==> history_duration(when_run_min, when_run_max) == 60 * 60,
{
}

/// A table that begins to be built keeps what it is built for, and asks for the latest
/// three commands of the session.
pub proof fn law_a_table_keeps_its_request(
    dir: &str,
    session_id: &Option<String>,
    start_time: Option<i64>,
    end_time: Option<i64>,
    now: Option<i64>,
    listed: Statement,
    next: (CacheBuild, CacheAction),
)
    requires
        call_ensures(
            History::build_cache_table,
            (dir, session_id, start_time, end_time, now),
            next,
        ),
        call_ensures(History::commands, (session_id, 3i16, 0u16, false), listed),
    ensures
        next.0.request.dir@ == dir@,
        next.0.request.session_id is Some <==> session_id is Some,
        session_id is Some ==> next.0.request.session_id->0@ == session_id->0@,
        next.0.request.start_time == start_time,
        next.0.request.end_time == end_time,
        next.0.request.now == now,
        next.0.stage == CacheStage::SessionTemplates,
        next.1 matches CacheAction::Templates(asked) && asked@ == listed@,
{
}

/// A session with fewer than three commands has the latest three of all sessions as its
/// context.
pub proof fn law_a_short_session_asks_for_all(
    start: CacheBuild,
    templates: Vec<String>,
    session_id: &Option<String>,
    listed: Statement,
    next: (CacheBuild, CacheAction),
)
    requires
        start.stage == CacheStage::SessionTemplates,
        templates@.len() < 3,
        session_id is None,
        call_ensures(CacheBuild::step, (start, CacheReply::Templates(templates)), next),
        call_ensures(History::commands, (session_id, 3i16, 0u16, false), listed),
    ensures
        next.0.request@ == start.request@,
        next.0.stage == CacheStage::AllTemplates,
        next.1 matches CacheAction::Templates(asked) && asked@ == listed@,
{
}

/// Whether an action runs a statement of the given text that has no parameters.
pub open spec fn runs(action: CacheAction, sql: Seq<char>) -> bool {
    match action {
        CacheAction::Templates(statement) | CacheAction::Execute(statement) | CacheAction::Range(
            statement,
        ) | CacheAction::Maximum(statement) => statement@.sql == sql && statement@.params.len() == 0,
        _ => false,
    }
}

/// A table is built of what the replies have told: the context is the first three
/// templates, with empty ones for those that are missing; the history lasts from the first
/// moment to the last, or an hour if they are one; a maximum that is missing is one, or one
/// hundred for the length; a time that was not asked for is the beginning or the present.
/// What was asked for stays as it was.
pub proof fn law_a_table_is_made_of_what_was_told(
    start: CacheBuild,
    templates: Vec<String>,
    min: i64,
    max: i64,
    occurrences: Option<i64>,
    selected: Option<i64>,
    length: Option<i64>,
    seconds: u64,
    steps: Seq<(CacheBuild, CacheAction)>,
)
    requires
        start.stage == CacheStage::AllTemplates || (start.stage == CacheStage::SessionTemplates
            && templates@.len() >= 3),
        steps.len() == 10,
        call_ensures(CacheBuild::step, (start, CacheReply::Templates(templates)), steps[0]),
        call_ensures(CacheBuild::step, (steps[0].0, CacheReply::Executed), steps[1]),
        call_ensures(CacheBuild::step, (steps[1].0, CacheReply::Range { min, max }), steps[2]),
        call_ensures(CacheBuild::step, (steps[2].0, CacheReply::Maximum(occurrences)), steps[3]),
        call_ensures(CacheBuild::step, (steps[3].0, CacheReply::Maximum(selected)), steps[4]),
        call_ensures(CacheBuild::step, (steps[4].0, CacheReply::Maximum(length)), steps[5]),
        call_ensures(CacheBuild::step, (steps[5].0, CacheReply::Time(seconds)), steps[6]),
        call_ensures(CacheBuild::step, (steps[6].0, CacheReply::Executed), steps[7]),
        call_ensures(CacheBuild::step, (steps[7].0, CacheReply::Executed), steps[8]),
        call_ensures(CacheBuild::step, (steps[8].0, CacheReply::Executed), steps[9]),
    ensures
        steps[0].1 is Execute && runs(steps[0].1, DROP_TABLE@),
        steps[1].1 is Range && runs(steps[1].1, WHEN_RUN_RANGE@),
        steps[2].1 is Maximum && runs(steps[2].1, MAX_OCCURRENCES@),
        steps[3].1 is Maximum && runs(steps[3].1, MAX_SELECTED_OCCURRENCES@),
        steps[4].1 is Maximum && runs(steps[4].1, MAX_LENGTH@),
        steps[5].1 is Time,
        steps[6].1 matches CacheAction::Execute(creation) && ({
            let made = creation@;
            let request = start.request;
            &&& made.sql == CREATE_TABLE@
            &&& made.params.len() == 14
            &&& binds(made, ":when_run_max"@, ValueView::Double(max as int))
            &&& min == max ==> binds(made, ":history_duration"@, ValueView::Double(3600))
            &&& min != max ==> binds(made, ":history_duration"@, ValueView::Double(max - min))
            &&& binds(made, ":directory"@, ValueView::Text(request.dir@))
            &&& occurrences matches Some(n) ==> binds(
                made,
                ":max_occurrences"@,
                ValueView::Double(n as int),
            )
            &&& occurrences is None ==> binds(made, ":max_occurrences"@, ValueView::Double(1))
            &&& selected matches Some(n) ==> binds(
                made,
                ":max_selected_occurrences"@,
                ValueView::Double(n as int),
            )
            &&& selected is None ==> binds(
                made,
                ":max_selected_occurrences"@,
                ValueView::Double(1),
            )
            &&& length matches Some(n) ==> binds(
                made,
                ":max_length"@,
                ValueView::Double(n as int),
            )
            &&& length is None ==> binds(made, ":max_length"@, ValueView::Double(100))
            &&& binds(made, ":lookback"@, ValueView::Integer(3))
            &&& binds(made, ":lookback_f64"@, ValueView::Double(3))
            &&& binds(
                made,
                ":last_commands0"@,
                ValueView::Text(
                    if templates@.len() > 0 {
                        templates@[0]@
                    } else {
                        Seq::empty()
                    },
                ),
            )
            &&& binds(
                made,
                ":last_commands1"@,
                ValueView::Text(
                    if templates@.len() > 1 {
                        templates@[1]@
                    } else {
                        Seq::empty()
                    },
                ),
            )
            &&& binds(
                made,
                ":last_commands2"@,
                ValueView::Text(
                    if templates@.len() > 2 {
                        templates@[2]@
                    } else {
                        Seq::empty()
                    },
                ),
            )
            &&& request.start_time matches Some(t) ==> binds(
                made,
                ":start_time"@,
                ValueView::Integer(t as int),
            )
            &&& request.start_time is None ==> binds(made, ":start_time"@, ValueView::Integer(0))
            &&& request.end_time matches Some(t) ==> binds(
                made,
                ":end_time"@,
                ValueView::Integer(t as int),
            )
            &&& request.end_time is None ==> binds(
                made,
                ":end_time"@,
                ValueView::Integer((seconds as i64) as int),
            )
            &&& request.now matches Some(t) ==> binds(
                made,
                ":now"@,
                ValueView::Integer(t as int),
            )
            &&& request.now is None ==> binds(
                made,
                ":now"@,
                ValueView::Integer((seconds as i64) as int),
            )
        }),
        steps[7].1 is Execute && runs(steps[7].1, RANK_TABLE@),
        steps[8].1 is Execute && runs(steps[8].1, INDEX_TABLE@),
        steps[9].1 is Stop,
        steps[9].0.stage == CacheStage::Finished,
        forall|i: int| 0 <= i < 10 ==> (#[trigger] steps[i]).0.request@ == start.request@,
{
    let params = steps[6].1->Execute_0@.params;
    assert(params.contains(params[0]) && params.contains(params[1]) && params.contains(params[2])
        && params.contains(params[3]) && params.contains(params[4]) && params.contains(params[5])
        && params.contains(params[6]) && params.contains(params[7]) && params.contains(params[8])
        && params.contains(params[9]) && params.contains(params[10]) && params.contains(params[11])
        && params.contains(params[12]) && params.contains(params[13]));
}

/// What a table is built for stands for its own values.
pub proof fn law_requests_stand_for_their_values(request: CacheRequest)
    ensures
        request@.dir == request.dir@,
        request@.session_id is Some <==> request.session_id is Some,
        request.session_id is Some ==> request@.session_id->0 == request.session_id->0@,
        request@.start_time == request.start_time,
        request@.end_time == request.end_time,
        request@.now == request.now,
{
}

/// These texts are what the database is asked when the table is built.
pub proof fn law_the_database_is_asked_in_these_words()
    ensures
        DROP_TABLE@ == "DROP TABLE IF EXISTS temp.contextual_commands;"@,
        WHEN_RUN_RANGE@ == "SELECT MIN(when_run), MAX(when_run) FROM commands"@,
        MAX_OCCURRENCES@ == "SELECT COUNT(*) AS c FROM commands GROUP BY cmd ORDER BY c DESC LIMIT 1"@,
        MAX_SELECTED_OCCURRENCES@ == "SELECT COUNT(*) AS c FROM commands WHERE selected = 1 GROUP BY cmd ORDER BY c DESC LIMIT 1"@,
        MAX_LENGTH@ == "SELECT MAX(LENGTH(cmd)) FROM commands"@,
        CREATE_TABLE@ == "CREATE TEMP TABLE contextual_commands AS SELECT
    id, cmd, cmd_tpl, session_id, when_run, exit_code, selected, dir,

    /* to be filled in later */
    0.0 AS rank,

    /* length of the command string */
    LENGTH(c.cmd) / :max_length AS length_factor,

    /* age of the last execution of this command (0.0 is new, 1.0 is old) */
    MIN((:when_run_max - when_run) / :history_duration) AS age_factor,

    /* average error state (1: always successful, 0: always errors) */
    SUM(CASE WHEN exit_code = 0 THEN 1.0 ELSE 0.0 END) / COUNT(*) as exit_factor,

    /* recent failure (1 if failed recently, 0 if not) */
    MAX(CASE WHEN exit_code != 0 AND :now - when_run < 120 THEN 1.0 ELSE 0.0 END) AS recent_failure_factor,

    /* percentage run in this directory (1: always run in this directory, 0: never run in this directory) */
    SUM(CASE WHEN dir = :directory THEN 1.0 ELSE 0.0 END) / COUNT(*) as dir_factor,

    /* percentage of time selected in this directory (1: only selected in this dir, 0: only selected elsewhere) */
    SUM(CASE WHEN dir = :directory AND selected = 1 THEN 1.0 ELSE 0.0 END) / MAX(SUM(CASE WHEN selected = 1 THEN 1.0 ELSE 0.0 END), 1) as selected_dir_factor,

    /* average contextual overlap of this command (0: none of the last 3 commands has ever overlapped with this command, 1: all of the last three commands always overlap with this command) */
    SUM((
      SELECT COUNT(DISTINCT c2.cmd_tpl) FROM commands c2
      WHERE c2.id >= c.id - :lookback AND c2.id < c.id AND c2.cmd_tpl IN (:last_commands0, :last_commands1, :last_commands2)
    ) / :lookback_f64) / COUNT(*) AS overlap_factor,

    /* average overlap with the last command (0: this command never follows the last command, 1: this command always follows the last command) */
    SUM((SELECT COUNT(*) FROM commands c2 WHERE c2.id = c.id - 1 AND c2.cmd_tpl = :last_commands0)) * 1.0 / COUNT(*) AS immediate_overlap_factor,

    /* percentage selected (1: this is the most commonly selected command, 0: this command is never selected) */
    SUM(CASE WHEN selected = 1 THEN 1.0 ELSE 0.0 END) / :max_selected_occurrences AS selected_occurrences_factor,

    /* percentage of time this command is run relative to the most common command (1: this is the most common command, 0: this is the least common command) */
    COUNT(*) / :max_occurrences AS occurrences_factor

    FROM commands c WHERE when_run > :start_time AND when_run < :end_time GROUP BY cmd ORDER BY id DESC;"@,
        RANK_TABLE@ == "UPDATE contextual_commands
    SET rank = nn_rank(age_factor, length_factor, exit_factor,
                       recent_failure_factor, selected_dir_factor, dir_factor,
                       overlap_factor, immediate_overlap_factor,
                       selected_occurrences_factor, occurrences_factor);"@,
        INDEX_TABLE@ == "CREATE INDEX temp.MyIndex ON contextual_commands(id);"@,
{
}

} // verus!
