//! Listing commands: the latest first, or in random order.
use super::command::Command;
use super::statement::{binds, text_view, Statement, StatementView, ValueView};
use super::History;
use vstd::prelude::*;

verus! {

/// The columns of a listing, and the table they come from.
pub const LISTING_COLUMNS: &'static str = "SELECT id, cmd, cmd_tpl, session_id, when_run, exit_code, selected, dir FROM commands";

/// The part of a listing that keeps to one session.
pub const LISTING_SESSION: &'static str = " WHERE session_id = :session_id";

/// The order of a listing whose commands are drawn at random.
pub const RANDOM_ORDER: &'static str = " ORDER BY RANDOM()";

/// The order of a listing that follows the recording.
pub const RECORDED_ORDER: &'static str = " ORDER BY id";

/// The part of a listing that turns the order round and takes a stretch of it.
pub const LISTING_STRETCH: &'static str = " DESC LIMIT :limit OFFSET :offset";

/// The statement that lists `num` commands after the first `offset`, of one session or
/// of all.
pub open spec fn listing(
    session_id: Option<Seq<char>>,
    num: i16,
    offset: u16,
    random: bool,
) -> StatementView {
    let order = if random { RANDOM_ORDER@ } else { RECORDED_ORDER@ };
    let stretch = seq![
        (":limit"@, ValueView::Integer(num as int)),
        (":offset"@, ValueView::Integer(offset as int)),
    ];
    match session_id {
        None => StatementView {
            sql: LISTING_COLUMNS@ + order + LISTING_STRETCH@,
            params: stretch,
        },
        Some(session) => StatementView {
            sql: LISTING_COLUMNS@ + LISTING_SESSION@ + order + LISTING_STRETCH@,
            params: seq![(":session_id"@, ValueView::Text(session))] + stretch,
        },
    }
}

impl History {
    /// The statement that lists `num` commands after the first `offset`: those of one
    /// session or, with `None`, of all; the latest first, or at random.
    pub fn commands(session_id: &Option<String>, num: i16, offset: u16, random: bool) -> (statement:
        Statement)
        ensures
            statement@ == listing(text_view(*session_id), num, offset, random),
    {
        let mut sql = LISTING_COLUMNS.to_owned();
        if session_id.is_some() {
            sql.append(LISTING_SESSION);
        }
        sql.append(if random { RANDOM_ORDER } else { RECORDED_ORDER });
        sql.append(LISTING_STRETCH);
        let mut statement = Statement::new(sql.as_str());
        if let Some(session) = session_id {
            statement = statement.bind_text(":session_id", session.as_str());
        }
        statement = statement.bind_integer(":limit", num as i64);
        statement = statement.bind_integer(":offset", offset as i64);
        assert(statement@ =~= listing(text_view(*session_id), num, offset, random));
        statement
    }

    /// The statement that lists the latest command, of one session or of all.
    pub fn last_command_query(session_id: &Option<String>) -> (statement: Statement)
        ensures
            statement@ == listing(text_view(*session_id), 1, 0, false),
    {
        History::commands(session_id, 1, 0, false)
    }

    /// The statement that lists the command recorded last, whatever session it came from:
    /// the one that is not to be repeated.
    pub fn previous_command_query() -> (statement: Statement)
        ensures
            statement@ == listing(None, 1, 0, false),
    {
        History::last_command_query(&None)
    }

    /// A command read from a row of a listing. Nothing was searched for, so nothing
    /// matches.
    pub fn listed(
        id: i64,
        cmd: String,
        cmd_tpl: String,
        session_id: String,
        when_run: Option<i64>,
        exit_code: Option<i32>,
        selected: bool,
        dir: Option<String>,
    ) -> (command: Command)
        ensures
            command == (Command {
                id,
                cmd,
                cmd_tpl,
                session_id,
                when_run,
                exit_code,
                selected,
                dir,
                match_bounds: command.match_bounds,
            }),
            command.match_bounds@ == Seq::<(usize, usize)>::empty(),
    {
        Command {
            id,
            cmd,
            cmd_tpl,
            session_id,
            when_run,
            exit_code,
            selected,
            dir,
            match_bounds: Vec::new(),
        }
    }

    /// The commands of a listing: its rows in order, without those that could not be
    /// read.
    pub fn run_query(rows: Vec<Option<Command>>) -> (commands: Vec<Command>)
        ensures
            commands@ == rows@.filter_map(|row: Option<Command>| row),
    {
        let mut commands: Vec<Command> = Vec::new();
        let ghost all = rows@;
        for row in it: rows
            invariant
                it.seq() == all,
                commands@ == all.take(it.index()).filter_map(|row: Option<Command>| row),
        {
            proof {
                all.lemma_filter_map_take_succ(|row: Option<Command>| row, it.index());
            }
            if let Some(command) = row {
                commands.push(command);
            }
        }
        assert(all.take(all.len() as int) =~= all);
        commands
    }

    /// The latest command: the first of a listing of the latest.
    pub fn last_command(commands: Vec<Command>) -> (last: Option<Command>)
        ensures
            last == (if commands@.len() == 0 { None } else { Some(commands@[0]) }),
    {
        let mut commands = commands;
        if commands.len() == 0 {
            None
        } else {
            Some(commands.remove(0))
        }
    }

    /// The templates of the listed commands, in their order.
    pub fn last_command_templates(commands: Vec<Command>) -> (templates: Vec<String>)
        ensures
            templates@ == commands@.map_values(|command: Command| command.cmd_tpl),
    {
        let mut templates: Vec<String> = Vec::new();
        let ghost all = commands@;
        for command in it: commands
            invariant
                it.seq() == all,
                templates@ == all.take(it.index()).map_values(|command: Command| command.cmd_tpl),
        {
            let ghost i = it.index();
            templates.push(command.cmd_tpl);
            assert(all.take(i + 1) =~= all.take(i).push(all[i]));
            assert(templates@ =~= all.take(i + 1).map_values(|command: Command| command.cmd_tpl));
        }
        assert(all.take(all.len() as int) =~= all);
        templates
    }
}

/// A listing takes the stretch of commands that was asked for, of the session that was
/// asked for or of all, and its text depends on nothing but whether there is a session and
/// whether the order is random.
pub proof fn law_a_listing_is_what_was_asked_for(
    session_id: &Option<String>,
    num: i16,
    offset: u16,
    random: bool,
    statement: Statement,
)
    requires
        call_ensures(History::commands, (session_id, num, offset, random), statement),
    ensures
        binds(statement@, ":limit"@, ValueView::Integer(num as int)),
        binds(statement@, ":offset"@, ValueView::Integer(offset as int)),
        session_id matches Some(session) ==> statement@.params.len() == 3 && binds(
            statement@,
            ":session_id"@,
            ValueView::Text(session@),
        ),
        session_id is None ==> statement@.params.len() == 2,
        LISTING_COLUMNS@.is_prefix_of(statement@.sql),
        LISTING_STRETCH@.is_suffix_of(statement@.sql),
        statement@.sql.subrange(
            LISTING_COLUMNS@.len() as int,
            statement@.sql.len() - LISTING_STRETCH@.len(),
        ) == (if session_id is Some {
            LISTING_SESSION@
        } else {
            Seq::empty()
        }) + (if random {
            RANDOM_ORDER@
        } else {
            RECORDED_ORDER@
        }),
{
    let params = statement@.params;
    let sql = statement@.sql;
    assert(params.contains(params[0]) && params.contains(params[1]) && params.contains(
        params[params.len() - 1],
    ));
    assert(LISTING_COLUMNS@ =~= sql.subrange(0, LISTING_COLUMNS@.len() as int));
    assert(LISTING_STRETCH@ =~= sql.subrange(sql.len() - LISTING_STRETCH@.len(), sql.len() as int));
}

/// The latest command is looked for by a listing of one command, the latest first; the one
/// that is not to be repeated, in all sessions.
pub proof fn law_the_latest_command_is_the_first_listed(
    session_id: &Option<String>,
    latest: Statement,
    listed: Statement,
    previous: Statement,
)
    requires
        call_ensures(History::last_command_query, (session_id,), latest),
        call_ensures(History::commands, (session_id, 1i16, 0u16, false), listed),
        call_ensures(History::previous_command_query, (), previous),
    ensures
        latest@ == listed@,
        session_id is None ==> previous@ == listed@,
{
}

pub proof fn lemma_filter_map_concat<A, B>(a: Seq<A>, b: Seq<A>, f: spec_fn(A) -> Option<B>)
    ensures
        (a + b).filter_map(f) == a.filter_map(f) + b.filter_map(f),
    decreases b.len(),
{
    if b.len() == 0 {
        reveal(Seq::filter_map);
        assert(a + b =~= a);
        assert(a.filter_map(f) + b.filter_map(f) =~= a.filter_map(f));
    } else {
        let n = b.len() - 1;
        let all = a + b;
        lemma_filter_map_concat(a, b.take(n), f);
        all.lemma_filter_map_take_succ(f, a.len() + n);
        b.lemma_filter_map_take_succ(f, n);
        assert(all.take(a.len() + n + 1) =~= all);
        assert(b.take(n + 1) =~= b);
        assert(all.take(a.len() + n) =~= a + b.take(n));
        assert(all.filter_map(f) =~= a.filter_map(f) + b.filter_map(f));
    }
}

/// The commands of two listings in a row are those of the one and then those of the other.
pub proof fn law_rows_keep_their_order(
    a: Vec<Option<Command>>,
    b: Vec<Option<Command>>,
    both: Vec<Option<Command>>,
    of_a: Vec<Command>,
    of_b: Vec<Command>,
    of_both: Vec<Command>,
)
    requires
        both@ == a@ + b@,
        call_ensures(History::run_query, (a,), of_a),
        call_ensures(History::run_query, (b,), of_b),
        call_ensures(History::run_query, (both,), of_both),
    ensures
        of_both@ == of_a@ + of_b@,
{
    lemma_filter_map_concat(a@, b@, |row: Option<Command>| row);
}

/// A row that could be read gives its command; one that could not gives none.
pub proof fn law_a_row_gives_its_command(rows: Vec<Option<Command>>, commands: Vec<Command>)
    requires
        rows@.len() == 1,
        call_ensures(History::run_query, (rows,), commands),
    ensures
        rows@[0] matches Some(command) ==> commands@ == seq![command],
        rows@[0] is None ==> commands@.len() == 0,
{
    let f = |row: Option<Command>| row;
    Seq::lemma_filter_map_singleton(rows@[0], f);
    assert(rows@ =~= seq![rows@[0]]);
}

/// Without rows there are no commands.
pub proof fn law_no_rows_give_no_commands(rows: Vec<Option<Command>>, commands: Vec<Command>)
    requires
        rows@.len() == 0,
        call_ensures(History::run_query, (rows,), commands),
    ensures
        commands@.len() == 0,
{
    reveal(Seq::filter_map);
}

/// The latest command is the first that was listed, and its template is the first
/// template; every listed command has its template at its place.
pub proof fn law_templates_stand_at_their_places(
    commands: Vec<Command>,
    last: Option<Command>,
    templates: Vec<String>,
)
    requires
        call_ensures(History::last_command, (commands,), last),
        call_ensures(History::last_command_templates, (commands,), templates),
    ensures
        last is None <==> commands@.len() == 0,
        last matches Some(command) ==> command == commands@[0] && command.cmd_tpl == templates@[0],
        templates@.len() == commands@.len(),
        forall|i: int|
            0 <= i < commands@.len() ==> #[trigger] templates@[i] == commands@[i].cmd_tpl,
{
}

/// A listed command has the values of its row, and nothing in it matches.
pub proof fn law_a_listed_command_has_the_values_of_its_row(
    id: i64,
    cmd: String,
    cmd_tpl: String,
    session_id: String,
    when_run: Option<i64>,
    exit_code: Option<i32>,
    selected: bool,
    dir: Option<String>,
    command: Command,
)
    requires
        call_ensures(
            History::listed,
            (id, cmd, cmd_tpl, session_id, when_run, exit_code, selected, dir),
            command,
        ),
    ensures
        command.id == id,
        command.cmd == cmd,
        command.cmd_tpl == cmd_tpl,
        command.session_id == session_id,
        command.when_run == when_run,
        command.exit_code == exit_code,
        command.selected == selected,
        command.dir == dir,
        command.match_bounds@.len() == 0,
{
}

/// These texts are what the database is asked when commands are listed.
pub proof fn law_the_database_is_asked_in_these_words()
    ensures
        LISTING_COLUMNS@ == "SELECT id, cmd, cmd_tpl, session_id, when_run, exit_code, selected, dir FROM commands"@,
        LISTING_SESSION@ == " WHERE session_id = :session_id"@,
        RANDOM_ORDER@ == " ORDER BY RANDOM()"@,
        RECORDED_ORDER@ == " ORDER BY id"@,
        LISTING_STRETCH@ == " DESC LIMIT :limit OFFSET :offset"@,
{
}

} // verus!
