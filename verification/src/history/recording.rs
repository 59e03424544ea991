//! Recording commands, and forgetting them.
use super::moves::{
    after, awaits, begins, events_left, moves_one, MoveAction, MoveEvent, MoveState,
};
use super::statement::{
    binds, optional_integer, optional_text, text_view, Statement, StatementView, Value, ValueView,
};
use super::History;
use crate::text::{ascii_lowercase_text, lowercase, same_text, starts_with};
use vstd::prelude::*;
use vstd::utf8::is_ascii_chars;

verus! {

/// Records a command.
pub const INSERT_COMMAND: &'static str = "INSERT INTO commands (cmd, cmd_tpl, session_id, when_run, exit_code, selected, dir, old_dir) VALUES (:cmd, :cmd_tpl, :session_id, :when_run, :exit_code, :selected, :dir, :old_dir)";

/// Takes back the pending selections of a command.
pub const CLAIM_SELECTED: &'static str = "DELETE FROM selected_commands WHERE cmd = :cmd AND session_id = :session_id AND dir = :dir";

/// Takes back all pending selections of a session.
pub const CLEAR_SELECTED: &'static str = "DELETE FROM selected_commands WHERE session_id = :session_id";

/// Notes that a command was selected.
pub const INSERT_SELECTED: &'static str = "INSERT INTO selected_commands (cmd, session_id, dir) VALUES (:cmd, :session_id, :dir)";

/// Forgets the pending selections of a command.
pub const DELETE_SELECTED: &'static str = "DELETE FROM selected_commands WHERE cmd = :command";

/// Forgets a command.
pub const DELETE_COMMAND: &'static str = "DELETE FROM commands WHERE cmd = :command";

/// Whether a command is one of those that are never worth recording.
pub open spec fn ignored(command: Seq<char>) -> bool {
    ||| command == "pwd"@
    ||| command == "ls"@
    ||| command == "cd"@
    ||| command == "cd .."@
    ||| command == "clear"@
    ||| command == "history"@
    ||| command == "mcfly search"@
}

/// Whether a command is to be recorded, given the one recorded last, if any.
pub open spec fn worth_adding(command: Seq<char>, last: Option<Seq<char>>) -> bool {
    &&& command.len() > 0
    // It was not entered by a search.
    &&& !"#mcfly:"@.is_prefix_of(command)
    &&& command[0] != ' '
    &&& !ignored(command)
    // A new terminal does not repeat the last command, whatever session it came from.
    &&& last != Some(command)
}

/// Whether a command is one of those that are never worth recording.
pub fn is_ignored(command: &str) -> (is: bool)
    ensures
        is == ignored(command@),
{
    same_text(command, "pwd") || same_text(command, "ls") || same_text(command, "cd") || same_text(
        command,
        "cd ..",
    ) || same_text(command, "clear") || same_text(command, "history") || same_text(
        command,
        "mcfly search",
    )
}

/// A command that has been run and is to be recorded.
#[derive(Debug)]
pub struct NewCommand {
    pub command: String,
    pub session_id: String,
    pub dir: String,
    pub when_run: Option<i64>,
    pub exit_code: Option<i32>,
    pub old_dir: Option<String>,
}

/// What a `NewCommand` stands for.
#[verifier::ext_equal]
pub struct NewCommandView {
    pub command: Seq<char>,
    pub session_id: Seq<char>,
    pub dir: Seq<char>,
    pub when_run: Option<i64>,
    pub exit_code: Option<i32>,
    pub old_dir: Option<Seq<char>>,
}

impl View for NewCommand {
    type V = NewCommandView;

    open spec fn view(&self) -> NewCommandView {
        NewCommandView {
            command: self.command@,
            session_id: self.session_id@,
            dir: self.dir@,
            when_run: self.when_run,
            exit_code: self.exit_code,
            old_dir: text_view(self.old_dir),
        }
    }
}

/// The statement that records a command under its template, as selected or not.
pub open spec fn insertion(
    new: NewCommandView,
    template: Seq<char>,
    selected: bool,
) -> StatementView {
    StatementView {
        sql: INSERT_COMMAND@,
        params: seq![
            (":cmd"@, ValueView::Text(new.command)),
            (":cmd_tpl"@, ValueView::Text(template)),
            (":session_id"@, ValueView::Text(new.session_id)),
            (
                ":when_run"@,
                optional_integer(
                    match new.when_run {
                        Some(when) => Some(when as int),
                        None => None,
                    },
                ),
            ),
            (
                ":exit_code"@,
                optional_integer(
                    match new.exit_code {
                        Some(code) => Some(code as int),
                        None => None,
                    },
                ),
            ),
            (":selected"@, ValueView::Integer(if selected { 1 } else { 0 })),
            (":dir"@, ValueView::Text(new.dir)),
            (":old_dir"@, optional_text(new.old_dir)),
        ],
    }
}

/// The statement that takes back the pending selections of a command.
pub open spec fn claim(command: Seq<char>, session_id: Seq<char>, dir: Seq<char>) -> StatementView {
    StatementView {
        sql: CLAIM_SELECTED@,
        params: seq![
            (":cmd"@, ValueView::Text(command)),
            (":session_id"@, ValueView::Text(session_id)),
            (":dir"@, ValueView::Text(dir)),
        ],
    }
}

/// The statement that takes back all pending selections of a session.
pub open spec fn clearing(session_id: Seq<char>) -> StatementView {
    StatementView {
        sql: CLEAR_SELECTED@,
        params: seq![(":session_id"@, ValueView::Text(session_id))],
    }
}

/// The statements that tell whether a command was selected.
pub struct SelectionCheck {
    /// Run first: the command was selected if it changes any row.
    pub claim: Statement,
    /// Run second: whatever else was pending has been aborted or edited.
    pub clear: Statement,
}

impl History {
    /// Whether a command is to be recorded, given the text of the one recorded last.
    pub fn should_add(command: &str, last_command: Option<&str>) -> (should: bool)
        ensures
            should == worth_adding(
                command@,
                match last_command {
                    Some(last) => Some(last@),
                    None => None,
                },
            ),
    {
        if command.is_empty() {
            return false;
        }
        if starts_with(command, "#mcfly:") {
            return false;
        }
        let space = starts_with(command, " ");
        proof {
            reveal_strlit(" ");
            if command@[0] == ' ' {
                assert(" "@ =~= command@.subrange(0, 1));
            }
        }
        if space {
            assert(command@.subrange(0, 1)[0] == ' ');
            return false;
        }
        if is_ignored(command) {
            return false;
        }
        match last_command {
            None => true,
            Some(last) => !same_text(command, last),
        }
    }

    /// The statements that tell whether a command was selected in a session and a
    /// directory, and that take back every selection pending in that session.
    pub fn determine_if_selected_from_ui(command: &str, session_id: &str, dir: &str) -> (check:
        SelectionCheck)
        ensures
            check.claim@ == claim(command@, session_id@, dir@),
            check.clear@ == clearing(session_id@),
    {
        let claim = Statement::new(CLAIM_SELECTED).bind_text(":cmd", command).bind_text(
            ":session_id",
            session_id,
        ).bind_text(":dir", dir);
        assert(claim@ =~= self::claim(command@, session_id@, dir@));
        let clear = Statement::new(CLEAR_SELECTED).bind_text(":session_id", session_id);
        assert(clear@ =~= clearing(session_id@));
        SelectionCheck { claim, clear }
    }

    /// Whether a command was selected, by the rows that its claim has changed.
    pub fn was_selected(rows_affected: usize) -> (selected: bool)
        ensures
            selected == (rows_affected > 0),
    {
        rows_affected > 0
    }

    /// The statement that notes that a command was selected.
    pub fn record_selected_from_ui(command: &str, session_id: &str, dir: &str) -> (statement:
        Statement)
        ensures
            statement@ == (StatementView {
                sql: INSERT_SELECTED@,
                params: seq![
                    (":cmd"@, ValueView::Text(command@)),
                    (":session_id"@, ValueView::Text(session_id@)),
                    (":dir"@, ValueView::Text(dir@)),
                ],
            }),
    {
        let statement = Statement::new(INSERT_SELECTED).bind_text(":cmd", command).bind_text(
            ":session_id",
            session_id,
        ).bind_text(":dir", dir);
        assert(statement@.params =~= seq![
            (":cmd"@, ValueView::Text(command@)),
            (":session_id"@, ValueView::Text(session_id@)),
            (":dir"@, ValueView::Text(dir@)),
        ]);
        statement
    }

    /// The statement that records a command.
    pub fn insert(new: &NewCommand, template: &str, selected: bool) -> (statement: Statement)
        ensures
            statement@ == insertion(new@, template@, selected),
    {
        let when_run = match new.when_run {
            Some(when) => Value::Integer(when),
            None => Value::Null,
        };
        let exit_code = match new.exit_code {
            Some(code) => Value::Integer(code as i64),
            None => Value::Null,
        };
        let old_dir = match &new.old_dir {
            Some(dir) => Value::Text(dir.clone()),
            None => Value::Null,
        };
        let statement = Statement::new(INSERT_COMMAND).bind_text(
            ":cmd",
            new.command.as_str(),
        ).bind_text(":cmd_tpl", template).bind_text(
            ":session_id",
            new.session_id.as_str(),
        ).bind(":when_run", when_run).bind(":exit_code", exit_code).bind_integer(
            ":selected",
            if selected { 1 } else { 0 },
        ).bind_text(":dir", new.dir.as_str()).bind(":old_dir", old_dir);
        assert(statement@ =~= insertion(new@, template@, selected));
        statement
    }

    /// The statements, in order, that forget a command and its pending selections.
    pub fn delete_command(command: &str) -> (statements: (Statement, Statement))
        ensures
            statements.0@ == (StatementView {
                sql: DELETE_SELECTED@,
                params: seq![(":command"@, ValueView::Text(command@))],
            }),
            statements.1@ == (StatementView {
                sql: DELETE_COMMAND@,
                params: seq![(":command"@, ValueView::Text(command@))],
            }),
    {
        let selected = Statement::new(DELETE_SELECTED).bind_text(":command", command);
        let recorded = Statement::new(DELETE_COMMAND).bind_text(":command", command);
        let ghost params = seq![(":command"@, ValueView::Text(command@))];
        assert(selected@.params =~= params);
        assert(recorded@.params =~= params);
        (selected, recorded)
    }
}

/// How far the recording of a command has come.
pub enum AddState {
    /// It is being looked at whether the command has moved a directory.
    Moving(MoveState),
    /// The claim of the command's selection is being run.
    Claiming,
    /// The other selections of the session are being taken back.
    Clearing { selected: bool },
    /// The template of the command is awaited.
    Simplifying { selected: bool },
    /// The command is being inserted.
    Inserting,
    Finished,
}

/// What has happened while a command is recorded.
pub enum AddEvent {
    /// Something was learned about a move.
    Move(MoveEvent),
    /// The recorded paths were moved.
    PathsUpdated,
    /// A statement was run, and so many rows changed.
    Executed { rows: usize },
    /// The template of the command is known.
    Simplified { template: String },
}

/// What to do next to record a command.
pub enum AddAction {
    /// Find out about a move, or move the recorded paths.
    Move(MoveAction),
    /// Run a statement.
    Execute(Statement),
    /// Work out the template of the command.
    Simplify,
    /// Nothing.
    Stop,
}

/// What an `AddAction` stands for.
pub enum AddActionView {
    Move(MoveAction),
    Execute(StatementView),
    Simplify,
    Stop,
}

impl View for AddAction {
    type V = AddActionView;

    open spec fn view(&self) -> AddActionView {
        match self {
            AddAction::Move(action) => AddActionView::Move(*action),
            AddAction::Execute(statement) => AddActionView::Execute(statement@),
            AddAction::Simplify => AddActionView::Simplify,
            AddAction::Stop => AddActionView::Stop,
        }
    }
}

/// Whether the recording awaits such an event.
pub open spec fn add_awaits(state: AddState, event: AddEvent) -> bool {
    match (state, event) {
        (AddState::Moving(moving), AddEvent::Move(learned)) => awaits(moving, learned),
        (AddState::Moving(moving), AddEvent::PathsUpdated) => moving is Finished,
        (AddState::Claiming, AddEvent::Executed { .. }) => true,
        (AddState::Clearing { .. }, AddEvent::Executed { .. }) => true,
        (AddState::Simplifying { .. }, AddEvent::Simplified { .. }) => true,
        (AddState::Inserting, AddEvent::Executed { .. }) => true,
        _ => false,
    }
}

/// The recording goes on with a move or, if there is nothing more to do about it, with
/// the selection of the command.
pub open spec fn add_moving(new: NewCommandView, next: (MoveState, MoveAction)) -> (
    AddState,
    AddActionView,
) {
    if next.1 is Stop {
        (
            AddState::Claiming,
            AddActionView::Execute(claim(new.command, new.session_id, new.dir)),
        )
    } else {
        (AddState::Moving(next.0), AddActionView::Move(next.1))
    }
}

/// The state of the recording after an event, and what to do next.
pub open spec fn add_after(new: NewCommandView, state: AddState, event: AddEvent) -> (
    AddState,
    AddActionView,
) {
    match (state, event) {
        (AddState::Moving(moving), AddEvent::Move(learned)) => add_moving(
            new,
            after(moving, learned),
        ),
        (AddState::Moving(_), AddEvent::PathsUpdated) => add_moving(
            new,
            (MoveState::Finished, MoveAction::Stop),
        ),
        (AddState::Claiming, AddEvent::Executed { rows }) => (
            AddState::Clearing { selected: rows > 0 },
            AddActionView::Execute(clearing(new.session_id)),
        ),
        (AddState::Clearing { selected }, AddEvent::Executed { .. }) => (
            AddState::Simplifying { selected },
            AddActionView::Simplify,
        ),
        (AddState::Simplifying { selected }, AddEvent::Simplified { template }) => (
            AddState::Inserting,
            AddActionView::Execute(insertion(new, template@, selected)),
        ),
        _ => (AddState::Finished, AddActionView::Stop),
    }
}

/// A command on its way into the history.
pub struct Recording {
    pub new: NewCommand,
    pub state: AddState,
}

fn add_go_on(new: NewCommand, next: (MoveState, MoveAction)) -> (result: (Recording, AddAction))
    ensures
        result.0.new == new,
        (result.0.state, result.1@) == add_moving(new@, next),
{
    match next.1 {
        MoveAction::Stop => {
            let check = History::determine_if_selected_from_ui(
                new.command.as_str(),
                new.session_id.as_str(),
                new.dir.as_str(),
            );
            (Recording { new, state: AddState::Claiming }, AddAction::Execute(check.claim))
        },
        action => (Recording { new, state: AddState::Moving(next.0) }, AddAction::Move(action)),
    }
}

impl History {
    /// Begins to record a command: first the recorded paths follow a directory that it
    /// has moved.
    pub fn add(
        command: &str,
        session_id: &str,
        dir: &str,
        when_run: &Option<i64>,
        exit_code: Option<i32>,
        old_dir: &Option<String>,
    ) -> (next: (Recording, AddAction))
        ensures
            next.0.new@ == (NewCommandView {
                command: command@,
                session_id: session_id@,
                dir: dir@,
                when_run: *when_run,
                exit_code,
                old_dir: text_view(*old_dir),
            }),
            (next.0.state, next.1@) == add_moving(
                next.0.new@,
                begins(moves_one(lowercase(command@), command@, exit_code)),
            ),
            is_ascii_chars(command@) ==> (next.0.state, next.1@) == add_moving(
                next.0.new@,
                begins(moves_one(ascii_lowercase_text(command@), command@, exit_code)),
            ),
    {
        let new = NewCommand {
            command: command.to_owned(),
            session_id: session_id.to_owned(),
            dir: dir.to_owned(),
            when_run: *when_run,
            exit_code,
            old_dir: old_dir.clone(),
        };
        add_go_on(new, History::possibly_update_paths(command, exit_code))
    }
}

impl Recording {
    /// Takes in what has happened, and says what to do next to record the command.
    pub fn step(self, event: AddEvent) -> (next: (Recording, AddAction))
        requires
            add_awaits(self.state, event),
        ensures
            next.0.new == self.new,
            (next.0.state, next.1@) == add_after(self.new@, self.state, event),
    {
        let new = self.new;
        let (state, action) = match (self.state, event) {
            (AddState::Moving(moving), AddEvent::Move(learned)) => {
                return add_go_on(new, moving.step(learned));
            },
            (AddState::Moving(_), AddEvent::PathsUpdated) => {
                return add_go_on(new, (MoveState::Finished, MoveAction::Stop));
            },
            (AddState::Claiming, AddEvent::Executed { rows }) => {
                let check = History::determine_if_selected_from_ui(
                    new.command.as_str(),
                    new.session_id.as_str(),
                    new.dir.as_str(),
                );
                (
                    AddState::Clearing { selected: History::was_selected(rows) },
                    AddAction::Execute(check.clear),
                )
            },
            (AddState::Clearing { selected }, AddEvent::Executed { .. }) => {
                (AddState::Simplifying { selected }, AddAction::Simplify)
            },
            (AddState::Simplifying { selected }, AddEvent::Simplified { template }) => {
                (
                    AddState::Inserting,
                    AddAction::Execute(History::insert(&new, template.as_str(), selected)),
                )
            },
            _ => (AddState::Finished, AddAction::Stop),
        };
        (Recording { new, state }, action)
    }
}

/// Once a move has been dealt with, a command is recorded by three statements, in this
/// order: its selection is claimed, the session's other selections are taken back, and
/// it is inserted. It is inserted as selected just if the claim has changed a row.
pub proof fn law_selection_is_settled_before_the_insert(
    new: NewCommandView,
    claimed: usize,
    cleared: usize,
    template: String,
    inserted: usize,
)
    ensures
        ({
            let (s0, a0) = add_moving(new, (MoveState::Finished, MoveAction::Stop));
            let (s1, a1) = add_after(new, s0, AddEvent::Executed { rows: claimed });
            let (s2, a2) = add_after(new, s1, AddEvent::Executed { rows: cleared });
            let (s3, a3) = add_after(new, s2, AddEvent::Simplified { template });
            let (s4, a4) = add_after(new, s3, AddEvent::Executed { rows: inserted });
            &&& a0 == AddActionView::Execute(claim(new.command, new.session_id, new.dir))
            &&& a1 == AddActionView::Execute(clearing(new.session_id))
            &&& a2 is Simplify
            &&& a3 == AddActionView::Execute(insertion(new, template@, claimed > 0))
            &&& a4 is Stop
            &&& s4 is Finished
        }),
{
}

/// A command that was just recorded is not recorded again.
pub proof fn law_the_last_command_is_not_repeated(command: Seq<char>)
    ensures
        !worth_adding(command, Some(command)),
{
}

/// The last command only ever keeps a command out: one that would not be recorded after
/// nothing is not recorded after anything.
pub proof fn law_the_last_command_only_keeps_out(command: Seq<char>, last: Option<Seq<char>>)
    ensures
        worth_adding(command, last) <==> worth_adding(command, None) && last != Some(command),
{
}

/// How many events the recording of a command can still take.
pub open spec fn add_events_left(state: AddState) -> nat {
    match state {
        AddState::Moving(moving) => 5 + events_left(moving),
        AddState::Claiming => 4,
        AddState::Clearing { .. } => 3,
        AddState::Simplifying { .. } => 2,
        AddState::Inserting => 1,
        AddState::Finished => 0,
    }
}

/// Every event brings the recording of a command nearer to its end, and it ends with the
/// action that says so.
pub proof fn law_a_recording_comes_to_an_end(new: NewCommandView, state: AddState, event: AddEvent)
    requires
        add_awaits(state, event),
    ensures
        add_events_left(add_after(new, state, event).0) < add_events_left(state),
        add_after(new, state, event).0 is Finished <==> add_after(new, state, event).1 is Stop,
{
}

/// A command is inserted as it was run: each of its values is bound to the parameter of
/// that name, a missing one as nothing. Whether it was selected is bound as one or zero,
/// whatever else is known of it.
pub proof fn law_a_command_is_inserted_as_it_was(
    new: &NewCommand,
    template: &str,
    selected: bool,
    statement: Statement,
)
    requires
        call_ensures(History::insert, (new, template, selected), statement),
    ensures
        statement@.sql == INSERT_COMMAND@,
        statement@.params.len() == 8,
        binds(statement@, ":cmd"@, ValueView::Text(new.command@)),
        binds(statement@, ":cmd_tpl"@, ValueView::Text(template@)),
        binds(statement@, ":session_id"@, ValueView::Text(new.session_id@)),
        new.when_run matches Some(when) ==> binds(
            statement@,
            ":when_run"@,
            ValueView::Integer(when as int),
        ),
        new.when_run is None ==> binds(statement@, ":when_run"@, ValueView::Null),
        new.exit_code matches Some(code) ==> binds(
            statement@,
            ":exit_code"@,
            ValueView::Integer(code as int),
        ),
        new.exit_code is None ==> binds(statement@, ":exit_code"@, ValueView::Null),
        selected ==> binds(statement@, ":selected"@, ValueView::Integer(1)),
        !selected ==> binds(statement@, ":selected"@, ValueView::Integer(0)),
        binds(statement@, ":dir"@, ValueView::Text(new.dir@)),
        new.old_dir matches Some(dir) ==> binds(statement@, ":old_dir"@, ValueView::Text(dir@)),
        new.old_dir is None ==> binds(statement@, ":old_dir"@, ValueView::Null),
{
    let params = statement@.params;
    assert(params.contains(params[0]) && params.contains(params[1]) && params.contains(params[2])
        && params.contains(params[3]) && params.contains(params[4]) && params.contains(params[5])
        && params.contains(params[6]) && params.contains(params[7]));
}

/// The pending selections of a command are claimed by its text, its session and its
/// directory; those that are cleared after it, by the session alone.
pub proof fn law_selections_are_claimed_by_all_three(
    command: &str,
    session_id: &str,
    dir: &str,
    check: SelectionCheck,
)
    requires
        call_ensures(History::determine_if_selected_from_ui, (command, session_id, dir), check),
    ensures
        check.claim@.sql == CLAIM_SELECTED@,
        check.claim@.params.len() == 3,
        binds(check.claim@, ":cmd"@, ValueView::Text(command@)),
        binds(check.claim@, ":session_id"@, ValueView::Text(session_id@)),
        binds(check.claim@, ":dir"@, ValueView::Text(dir@)),
        check.clear@.sql == CLEAR_SELECTED@,
        check.clear@.params.len() == 1,
        binds(check.clear@, ":session_id"@, ValueView::Text(session_id@)),
{
    let claimed = check.claim@.params;
    let cleared = check.clear@.params;
    assert(claimed.contains(claimed[0]) && claimed.contains(claimed[1]) && claimed.contains(
        claimed[2],
    ) && cleared.contains(cleared[0]));
}

/// A claim meets the selection that was noted for the same command: both bind the same
/// text, session and directory.
pub proof fn law_a_claim_meets_its_selection(
    command: &str,
    session_id: &str,
    dir: &str,
    noted: Statement,
    check: SelectionCheck,
)
    requires
        call_ensures(History::record_selected_from_ui, (command, session_id, dir), noted),
        call_ensures(History::determine_if_selected_from_ui, (command, session_id, dir), check),
    ensures
        noted@.sql == INSERT_SELECTED@,
        noted@.params == check.claim@.params,
        noted@.params.len() == 3,
        binds(noted@, ":cmd"@, ValueView::Text(command@)),
        binds(noted@, ":session_id"@, ValueView::Text(session_id@)),
        binds(noted@, ":dir"@, ValueView::Text(dir@)),
{
    law_selections_are_claimed_by_all_three(command, session_id, dir, check);
    assert(noted@.params =~= check.claim@.params);
}

/// A command was selected just if its claim has changed at least one row.
pub proof fn law_any_claimed_row_means_selected(rows_affected: usize, selected: bool)
    requires
        call_ensures(History::was_selected, (rows_affected,), selected),
    ensures
        selected <==> rows_affected != 0,
{
}

/// A command is forgotten together with its pending selections, both by its text alone.
pub proof fn law_a_command_is_forgotten_everywhere(command: &str, statements: (Statement, Statement))
    requires
        call_ensures(History::delete_command, (command,), statements),
    ensures
        statements.0@.sql == DELETE_SELECTED@,
        statements.1@.sql == DELETE_COMMAND@,
        statements.0@.params.len() == 1,
        statements.1@.params.len() == 1,
        binds(statements.0@, ":command"@, ValueView::Text(command@)),
        binds(statements.1@, ":command"@, ValueView::Text(command@)),
{
    let first = statements.0@.params;
    let second = statements.1@.params;
    assert(first.contains(first[0]) && second.contains(second[0]));
}

/// Seven commands are never worth recording, and no others.
pub proof fn law_seven_commands_are_ignored(command: &str, skipped: bool)
    requires
        call_ensures(is_ignored, (command,), skipped),
    ensures
        skipped <==> seq![
            seq!['p', 'w', 'd'],
            seq!['l', 's'],
            seq!['c', 'd'],
            seq!['c', 'd', ' ', '.', '.'],
            seq!['c', 'l', 'e', 'a', 'r'],
            seq!['h', 'i', 's', 't', 'o', 'r', 'y'],
            seq!['m', 'c', 'f', 'l', 'y', ' ', 's', 'e', 'a', 'r', 'c', 'h'],
        ].contains(command@),
{
    lemma_ignored_letters(command@);
}

proof fn lemma_ignored_letters(command: Seq<char>)
    ensures
        ignored(command) <==> seq![
            seq!['p', 'w', 'd'],
            seq!['l', 's'],
            seq!['c', 'd'],
            seq!['c', 'd', ' ', '.', '.'],
            seq!['c', 'l', 'e', 'a', 'r'],
            seq!['h', 'i', 's', 't', 'o', 'r', 'y'],
            seq!['m', 'c', 'f', 'l', 'y', ' ', 's', 'e', 'a', 'r', 'c', 'h'],
        ].contains(command),
{
    reveal_strlit("pwd");
    reveal_strlit("ls");
    reveal_strlit("cd");
    reveal_strlit("cd ..");
    reveal_strlit("clear");
    reveal_strlit("history");
    reveal_strlit("mcfly search");
    let all = seq![
        seq!['p', 'w', 'd'],
        seq!['l', 's'],
        seq!['c', 'd'],
        seq!['c', 'd', ' ', '.', '.'],
        seq!['c', 'l', 'e', 'a', 'r'],
        seq!['h', 'i', 's', 't', 'o', 'r', 'y'],
        seq!['m', 'c', 'f', 'l', 'y', ' ', 's', 'e', 'a', 'r', 'c', 'h'],
    ];
    assert("pwd"@ =~= all[0]);
    assert("ls"@ =~= all[1]);
    assert("cd"@ =~= all[2]);
    assert("cd .."@ =~= all[3]);
    assert("clear"@ =~= all[4]);
    assert("history"@ =~= all[5]);
    assert("mcfly search"@ =~= all[6]);
    assert(all.contains(all[0]) && all.contains(all[1]) && all.contains(all[2]) && all.contains(
        all[3],
    ) && all.contains(all[4]) && all.contains(all[5]) && all.contains(all[6]));
}

/// A command is recorded unless it is empty, begins with a space, was entered by a search,
/// is one of the ignored ones, or is the one recorded last.
pub proof fn law_every_other_command_is_recorded(
    command: &str,
    last_command: Option<&str>,
    skipped: bool,
    should: bool,
)
    requires
        call_ensures(is_ignored, (command,), skipped),
        call_ensures(History::should_add, (command, last_command), should),
    ensures
        !should <==> {
            ||| command@.len() == 0
            ||| command@[0] == ' '
            ||| command@.len() >= 7 && command@.take(7) == seq!['#', 'm', 'c', 'f', 'l', 'y', ':']
            ||| skipped
            ||| (last_command matches Some(last) && last@ == command@)
        },
{
    reveal_strlit("#mcfly:");
    let mark = seq!['#', 'm', 'c', 'f', 'l', 'y', ':'];
    assert("#mcfly:"@ =~= mark);
    if command@.len() >= 7 {
        assert(command@.take(7) =~= command@.subrange(0, 7));
    }
}

/// A command that begins to be recorded keeps its values. Unless it may have moved a
/// directory, its selection is claimed at once.
pub proof fn law_a_recording_keeps_the_command(
    command: &str,
    session_id: &str,
    dir: &str,
    when_run: &Option<i64>,
    exit_code: Option<i32>,
    old_dir: &Option<String>,
    check: SelectionCheck,
    looked: (MoveState, MoveAction),
    next: (Recording, AddAction),
)
    requires
        call_ensures(
            History::add,
            (command, session_id, dir, when_run, exit_code, old_dir),
            next,
        ),
        call_ensures(History::determine_if_selected_from_ui, (command, session_id, dir), check),
        call_ensures(History::possibly_update_paths, (command, exit_code), looked),
    ensures
        next.0.new.command@ == command@,
        next.0.new.session_id@ == session_id@,
        next.0.new.dir@ == dir@,
        next.0.new.when_run == *when_run,
        next.0.new.exit_code == exit_code,
        next.0.new.old_dir is Some <==> old_dir is Some,
        old_dir is Some ==> next.0.new.old_dir->0@ == old_dir->0@,
        looked.1 is Stop ==> next.0.state is Claiming && (next.1 matches AddAction::Execute(run)
            && run@ == check.claim@),
        !(looked.1 is Stop) ==> next.0.state == AddState::Moving(looked.0) && next.1
            == AddAction::Move(looked.1),
{
}

/// While a command is recorded, a move is looked at just as it is by itself. When there is
/// nothing more to do about it, the command's selection is claimed.
pub proof fn law_a_recording_follows_the_move(
    recording: Recording,
    moving: MoveState,
    event: MoveEvent,
    moved: (MoveState, MoveAction),
    check: SelectionCheck,
    command: &str,
    session_id: &str,
    dir: &str,
    next: (Recording, AddAction),
)
    requires
        recording.state == AddState::Moving(moving),
        recording.new.command@ == command@,
        recording.new.session_id@ == session_id@,
        recording.new.dir@ == dir@,
        call_ensures(MoveState::step, (moving, event), moved),
        call_ensures(History::determine_if_selected_from_ui, (command, session_id, dir), check),
        call_ensures(Recording::step, (recording, AddEvent::Move(event)), next),
    ensures
        next.0.new == recording.new,
        moved.1 is Stop ==> next.0.state is Claiming && (next.1 matches AddAction::Execute(run)
            && run@ == check.claim@),
        !(moved.1 is Stop) ==> next.0.state == AddState::Moving(moved.0) && next.1
            == AddAction::Move(moved.1),
{
}

/// Once the recorded paths have been moved, the command's selection is claimed.
pub proof fn law_moved_paths_come_before_the_claim(
    recording: Recording,
    check: SelectionCheck,
    command: &str,
    session_id: &str,
    dir: &str,
    next: (Recording, AddAction),
)
    requires
        recording.state is Moving,
        recording.new.command@ == command@,
        recording.new.session_id@ == session_id@,
        recording.new.dir@ == dir@,
        call_ensures(History::determine_if_selected_from_ui, (command, session_id, dir), check),
        call_ensures(Recording::step, (recording, AddEvent::PathsUpdated), next),
    ensures
        next.0.new == recording.new,
        next.0.state is Claiming,
        next.1 matches AddAction::Execute(run) && run@ == check.claim@,
{
}

/// A command whose selection is being claimed is inserted at the end, under its template
/// and with all its values, as selected just if the claim has changed a row. In between
/// the session's other selections are taken back, however many there were.
pub proof fn law_a_recording_ends_in_the_insert(
    start: Recording,
    claimed: usize,
    cleared: usize,
    template: String,
    inserted: usize,
    first: (Recording, AddAction),
    second: (Recording, AddAction),
    third: (Recording, AddAction),
    fourth: (Recording, AddAction),
)
    requires
        start.state is Claiming,
        call_ensures(Recording::step, (start, AddEvent::Executed { rows: claimed }), first),
        call_ensures(Recording::step, (first.0, AddEvent::Executed { rows: cleared }), second),
        call_ensures(Recording::step, (second.0, AddEvent::Simplified { template }), third),
        call_ensures(Recording::step, (third.0, AddEvent::Executed { rows: inserted }), fourth),
    ensures
        first.1 matches AddAction::Execute(clear) && clear@.sql == CLEAR_SELECTED@
            && clear@.params.len() == 1 && binds(
            clear@,
            ":session_id"@,
            ValueView::Text(start.new.session_id@),
        ),
        second.1 is Simplify,
        third.1 matches AddAction::Execute(insert) && ({
            &&& insert@.sql == INSERT_COMMAND@
            &&& insert@.params.len() == 8
            &&& binds(insert@, ":cmd"@, ValueView::Text(start.new.command@))
            &&& binds(insert@, ":cmd_tpl"@, ValueView::Text(template@))
            &&& binds(insert@, ":session_id"@, ValueView::Text(start.new.session_id@))
            &&& start.new.when_run matches Some(when) ==> binds(
                insert@,
                ":when_run"@,
                ValueView::Integer(when as int),
            )
            &&& start.new.when_run is None ==> binds(insert@, ":when_run"@, ValueView::Null)
            &&& start.new.exit_code matches Some(code) ==> binds(
                insert@,
                ":exit_code"@,
                ValueView::Integer(code as int),
            )
            &&& start.new.exit_code is None ==> binds(insert@, ":exit_code"@, ValueView::Null)
            &&& claimed > 0 ==> binds(insert@, ":selected"@, ValueView::Integer(1))
            &&& claimed == 0 ==> binds(insert@, ":selected"@, ValueView::Integer(0))
            &&& binds(insert@, ":dir"@, ValueView::Text(start.new.dir@))
            &&& start.new.old_dir matches Some(dir) ==> binds(
                insert@,
                ":old_dir"@,
                ValueView::Text(dir@),
            )
            &&& start.new.old_dir is None ==> binds(insert@, ":old_dir"@, ValueView::Null)
        }),
        fourth.1 is Stop,
        fourth.0.state is Finished,
{
    let clear = first.1->Execute_0@.params;
    let insert = third.1->Execute_0@.params;
    assert(clear.contains(clear[0]));
    assert(insert.contains(insert[0]) && insert.contains(insert[1]) && insert.contains(insert[2])
        && insert.contains(insert[3]) && insert.contains(insert[4]) && insert.contains(insert[5])
        && insert.contains(insert[6]) && insert.contains(insert[7]));
}

/// A command that is to be recorded stands for its own values.
pub proof fn law_new_commands_stand_for_their_values(new: NewCommand)
    ensures
        new@.command == new.command@,
        new@.session_id == new.session_id@,
        new@.dir == new.dir@,
        new@.when_run == new.when_run,
        new@.exit_code == new.exit_code,
        new@.old_dir is Some <==> new.old_dir is Some,
        new.old_dir is Some ==> new@.old_dir->0 == new.old_dir->0@,
{
}

/// These texts are what the database is asked when commands are recorded and forgotten.
pub proof fn law_the_database_is_asked_in_these_words()
    ensures
        INSERT_COMMAND@ == "INSERT INTO commands (cmd, cmd_tpl, session_id, when_run, exit_code, selected, dir, old_dir) VALUES (:cmd, :cmd_tpl, :session_id, :when_run, :exit_code, :selected, :dir, :old_dir)"@,
        CLAIM_SELECTED@ == "DELETE FROM selected_commands WHERE cmd = :cmd AND session_id = :session_id AND dir = :dir"@,
        CLEAR_SELECTED@ == "DELETE FROM selected_commands WHERE session_id = :session_id"@,
        INSERT_SELECTED@ == "INSERT INTO selected_commands (cmd, session_id, dir) VALUES (:cmd, :session_id, :dir)"@,
        DELETE_SELECTED@ == "DELETE FROM selected_commands WHERE cmd = :command"@,
        DELETE_COMMAND@ == "DELETE FROM commands WHERE cmd = :command"@,
{
}

} // verus!
