//! Opening the history: from its database or, the first time, from the shell's own.
use super::listing::lemma_filter_map_concat;
use super::recording::{ignored, is_ignored};
use super::statement::{binds, views, Statement, StatementView, ValueView};
use super::History;
use vstd::prelude::*;

verus! {

/// Creates the tables of an empty history.
pub const CREATE_TABLES: &'static str = "CREATE TABLE commands( \
    id INTEGER PRIMARY KEY AUTOINCREMENT, \
    cmd TEXT NOT NULL, \
    cmd_tpl TEXT, \
    session_id TEXT NOT NULL, \
    when_run INTEGER NOT NULL, \
    exit_code INTEGER NOT NULL, \
    selected INTEGER NOT NULL, \
    dir TEXT, \
    old_dir TEXT \
); \
CREATE INDEX command_cmds ON commands (cmd);\
CREATE INDEX command_session_id ON commands (session_id);\
CREATE INDEX command_dirs ON commands (dir);\
\
CREATE TABLE selected_commands( \
    id INTEGER PRIMARY KEY AUTOINCREMENT, \
    cmd TEXT NOT NULL, \
    session_id TEXT NOT NULL, \
    dir TEXT NOT NULL \
); \
CREATE INDEX selected_command_session_cmds ON selected_commands (session_id, cmd);";

/// Records a command of the shell's own history.
pub const IMPORT_COMMAND: &'static str = "INSERT INTO commands (cmd, cmd_tpl, session_id, when_run, exit_code, selected) VALUES (:cmd, :cmd_tpl, :session_id, :when_run, :exit_code, :selected)";

/// The session of the commands that come from the shell's own history.
pub const IMPORTED_SESSION: &'static str = "IMPORTED";

/// Where the history comes from.
#[derive(Copy, Clone, Debug, PartialEq, Eq, Structural)]
pub enum Source {
    /// The database of an earlier run.
    Database,
    /// The history that the shell keeps.
    ShellHistory,
}

/// A command of the shell's own history, with its template.
#[derive(Debug)]
pub struct ShellCommand {
    pub command: String,
    pub template: String,
    pub when: i64,
}

/// Whether a command of the shell's own history is recorded.
pub open spec fn worth_importing(shell: ShellCommand) -> bool {
    !ignored(shell.command@) && shell.command@.len() > 0 && shell.template@.len() > 0
}

/// The statement that records a command of the shell's own history.
pub open spec fn importation(shell: ShellCommand) -> StatementView {
    StatementView {
        sql: IMPORT_COMMAND@,
        params: seq![
            (":cmd"@, ValueView::Text(shell.command@)),
            (":cmd_tpl"@, ValueView::Text(shell.template@)),
            (":session_id"@, ValueView::Text(IMPORTED_SESSION@)),
            (":when_run"@, ValueView::Integer(shell.when as int)),
            (":exit_code"@, ValueView::Integer(0)),
            (":selected"@, ValueView::Integer(0)),
        ],
    }
}

/// The statement for a command of the shell's own history, if it is recorded.
pub open spec fn imported(shell: ShellCommand) -> Option<StatementView> {
    if worth_importing(shell) {
        Some(importation(shell))
    } else {
        None
    }
}

fn import_statement(shell: &ShellCommand) -> (statement: Statement)
    ensures
        statement@ == importation(*shell),
{
    let statement = Statement::new(IMPORT_COMMAND).bind_text(
        ":cmd",
        shell.command.as_str(),
    ).bind_text(":cmd_tpl", shell.template.as_str()).bind_text(
        ":session_id",
        IMPORTED_SESSION,
    ).bind_integer(":when_run", shell.when).bind_integer(":exit_code", 0).bind_integer(
        ":selected",
        0,
    );
    assert(statement@ =~= importation(*shell));
    statement
}

impl History {
    /// Where the history is to be loaded from.
    pub fn load(db_exists: bool) -> (source: Source)
        ensures
            source == (if db_exists { Source::Database } else { Source::ShellHistory }),
    {
        if db_exists {
            Source::Database
        } else {
            Source::ShellHistory
        }
    }

    /// The statements, in order, that record the shell's own history.
    pub fn from_shell_history(commands: &Vec<ShellCommand>) -> (statements: Vec<Statement>)
        ensures
            views(statements@) == commands@.filter_map(|shell: ShellCommand| imported(shell)),
    {
        let mut statements: Vec<Statement> = Vec::new();
        let mut i: usize = 0;
        while i < commands.len()
            invariant
                i <= commands@.len(),
                views(statements@) == commands@.take(i as int).filter_map(
                    |shell: ShellCommand| imported(shell),
                ),
            decreases commands@.len() - i,
        {
            let shell = &commands[i];
            proof {
                commands@.lemma_filter_map_take_succ(
                    |shell: ShellCommand| imported(shell),
                    i as int,
                );
            }
            let ghost before = statements@;
            if !is_ignored(shell.command.as_str()) && !shell.command.as_str().is_empty()
                && !shell.template.as_str().is_empty() {
                statements.push(import_statement(shell));
                assert(views(statements@) =~= views(before).push(importation(*shell)));
            }
            i += 1;
        }
        assert(commands@.take(i as int) =~= commands@);
        statements
    }
}

/// Whatever is imported comes from a command that is not ignored and is empty neither in
/// its text nor in its template.
pub proof fn law_nothing_ignored_is_imported(commands: Seq<ShellCommand>, statement: StatementView)
    requires
        commands.filter_map(|shell: ShellCommand| imported(shell)).contains(statement),
    ensures
        exists|shell: ShellCommand|
            #![trigger importation(shell)]
            commands.contains(shell) && worth_importing(shell) && statement == importation(shell),
{
    let f = |shell: ShellCommand| imported(shell);
    commands.lemma_filter_map_contains(f, statement);
    let shell = choose|shell: ShellCommand|
        commands.contains(shell) && #[trigger] f(shell) == Some(statement);
    assert(imported(shell) == Some(statement));
    assert(worth_importing(shell) && statement == importation(shell));
}

proof fn lemma_imports_concat(a: Seq<ShellCommand>, b: Seq<ShellCommand>)
    ensures
        (a + b).filter_map(|shell: ShellCommand| imported(shell)) == a.filter_map(
            |shell: ShellCommand| imported(shell),
        ) + b.filter_map(|shell: ShellCommand| imported(shell)),
{
    lemma_filter_map_concat(a, b, |shell: ShellCommand| imported(shell));
}

/// The statements of two histories in a row are those of the one and then those of the
/// other.
pub proof fn law_imports_keep_their_order(
    a: &Vec<ShellCommand>,
    b: &Vec<ShellCommand>,
    both: &Vec<ShellCommand>,
    of_a: Vec<Statement>,
    of_b: Vec<Statement>,
    of_both: Vec<Statement>,
)
    requires
        both@ == a@ + b@,
        call_ensures(History::from_shell_history, (a,), of_a),
        call_ensures(History::from_shell_history, (b,), of_b),
        call_ensures(History::from_shell_history, (both,), of_both),
    ensures
        views(of_both@) == views(of_a@) + views(of_b@),
        of_both@.len() == of_a@.len() + of_b@.len(),
{
    lemma_imports_concat(a@, b@);
    assert(views(of_both@).len() == of_both@.len());
}

/// A command of the shell's own history is recorded once, with its text, its template and
/// its time, as a success that was not selected; unless it is ignored, or it or its
/// template is empty.
pub proof fn law_a_shell_command_is_recorded_once(
    commands: &Vec<ShellCommand>,
    text: &str,
    skipped: bool,
    statements: Vec<Statement>,
)
    requires
        commands@.len() == 1,
        commands@[0].command@ == text@,
        call_ensures(is_ignored, (text,), skipped),
        call_ensures(History::from_shell_history, (commands,), statements),
    ensures
        skipped || text@.len() == 0 || commands@[0].template@.len() == 0 ==> statements@.len() == 0,
        !skipped && text@.len() > 0 && commands@[0].template@.len() > 0 ==> statements@.len() == 1 && ({
            let statement = statements@[0]@;
            &&& statement.sql == IMPORT_COMMAND@
            &&& statement.params.len() == 6
            &&& binds(statement, ":cmd"@, ValueView::Text(text@))
            &&& binds(statement, ":cmd_tpl"@, ValueView::Text(commands@[0].template@))
            &&& binds(statement, ":session_id"@, ValueView::Text("IMPORTED"@))
            &&& binds(statement, ":when_run"@, ValueView::Integer(commands@[0].when as int))
            &&& binds(statement, ":exit_code"@, ValueView::Integer(0))
            &&& binds(statement, ":selected"@, ValueView::Integer(0))
        }),
{
    let f = |shell: ShellCommand| imported(shell);
    let shell = commands@[0];
    Seq::lemma_filter_map_singleton(shell, f);
    assert(commands@ =~= seq![shell]);
    assert(views(statements@).len() == statements@.len());
    if worth_importing(shell) {
        assert(views(statements@)[0] == importation(shell));
        assert(statements@[0]@ == views(statements@)[0]);
        let params = statements@[0]@.params;
        assert(params.contains(params[0]) && params.contains(params[1]) && params.contains(
            params[2],
        ) && params.contains(params[3]) && params.contains(params[4]) && params.contains(
            params[5],
        ));
    }
}

/// An empty history gives no statements.
pub proof fn law_nothing_is_imported_from_nothing(
    commands: &Vec<ShellCommand>,
    statements: Vec<Statement>,
)
    requires
        commands@.len() == 0,
        call_ensures(History::from_shell_history, (commands,), statements),
    ensures
        statements@.len() == 0,
{
    reveal(Seq::filter_map);
    assert(views(statements@).len() == statements@.len());
}

/// The shell's own history is read just if there is no database yet.
pub proof fn law_the_shell_is_asked_only_once(db_exists: bool, source: Source)
    requires
        call_ensures(History::load, (db_exists,), source),
    ensures
        db_exists <==> source is Database,
        !db_exists <==> source is ShellHistory,
{
}

/// These texts make the tables of an empty history and fill them.
pub proof fn law_the_tables_are_made_in_these_words()
    ensures
        CREATE_TABLES@ == "CREATE TABLE commands( \
    id INTEGER PRIMARY KEY AUTOINCREMENT, \
    cmd TEXT NOT NULL, \
    cmd_tpl TEXT, \
    session_id TEXT NOT NULL, \
    when_run INTEGER NOT NULL, \
    exit_code INTEGER NOT NULL, \
    selected INTEGER NOT NULL, \
    dir TEXT, \
    old_dir TEXT \
); \
CREATE INDEX command_cmds ON commands (cmd);\
CREATE INDEX command_session_id ON commands (session_id);\
CREATE INDEX command_dirs ON commands (dir);\
\
CREATE TABLE selected_commands( \
    id INTEGER PRIMARY KEY AUTOINCREMENT, \
    cmd TEXT NOT NULL, \
    session_id TEXT NOT NULL, \
    dir TEXT NOT NULL \
); \
CREATE INDEX selected_command_session_cmds ON selected_commands (session_id, cmd);"@,
        IMPORT_COMMAND@ == "INSERT INTO commands (cmd, cmd_tpl, session_id, when_run, exit_code, selected) VALUES (:cmd, :cmd_tpl, :session_id, :when_run, :exit_code, :selected)"@,
        IMPORTED_SESSION@ == "IMPORTED"@,
{
}

} // verus!
