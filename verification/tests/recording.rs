use mcfly::history::import::CREATE_TABLES;
use mcfly::history::moves::{MoveAction, MoveEvent, MovePaths};
use mcfly::history::recording::{AddAction, AddEvent, AddState};
use mcfly::history::statement::{Statement, Value};
use mcfly::history::History;
use rusqlite::types::ToSql;
use rusqlite::{Connection, NO_PARAMS};

fn database() -> Connection {
    let connection = Connection::open_in_memory().unwrap();
    connection.execute_batch(CREATE_TABLES).unwrap();
    connection
}

fn run(connection: &Connection, statement: &Statement) -> usize {
    let values: Vec<rusqlite::types::Value> = statement
        .params
        .iter()
        .map(|param| match &param.value {
            Value::Null => rusqlite::types::Value::Null,
            Value::Integer(i) => rusqlite::types::Value::Integer(*i),
            Value::Double(d) => rusqlite::types::Value::Real(*d as f64),
            Value::Text(text) => rusqlite::types::Value::Text(text.clone()),
        })
        .collect();
    let params: Vec<(&str, &dyn ToSql)> = statement
        .params
        .iter()
        .zip(values.iter())
        .map(|(param, value)| (param.name, value as &dyn ToSql))
        .collect();
    connection.execute_named(&statement.sql, &params).unwrap()
}

fn count(connection: &Connection, sql: &str) -> i64 {
    connection.query_row(sql, NO_PARAMS, |row| row.get(0)).unwrap()
}

/// Records a command that moves nothing.
fn add(connection: &Connection, command: &str, session: &str, dir: &str) {
    let (mut recording, mut action) =
        History::add(command, session, dir, &Some(100), Some(0), &None);
    loop {
        let event = match action {
            AddAction::Execute(statement) => AddEvent::Executed { rows: run(connection, &statement) },
            AddAction::Simplify => AddEvent::Simplified { template: format!("tpl {}", command) },
            AddAction::Move(_) => panic!("nothing moves"),
            AddAction::Stop => return,
        };
        let next = recording.step(event);
        recording = next.0;
        action = next.1;
    }
}

#[test]
fn ordinary_commands_are_added() {
    assert!(History::should_add("git status", None));
    assert!(History::should_add("git status", Some("git log")));
    assert!(History::should_add("ls -l", None));
    assert!(History::should_add("pwd ", None));
    assert!(History::should_add("\u{e9}", Some("e")));
}

#[test]
fn empty_commands_are_not_added() {
    assert!(!History::should_add("", None));
    assert!(!History::should_add("", Some("ls")));
}

#[test]
fn commands_entered_by_a_search_are_not_added() {
    assert!(!History::should_add("#mcfly:", None));
    assert!(!History::should_add("#mcfly: git", None));
    assert!(History::should_add("#mcfly", None));
    assert!(History::should_add("echo #mcfly:", None));
}

#[test]
fn commands_with_a_leading_space_are_not_added() {
    assert!(!History::should_add(" git", None));
    assert!(!History::should_add(" ", None));
    assert!(History::should_add("\tgit", None));
}

#[test]
fn ignored_commands_are_not_added() {
    for command in ["pwd", "ls", "cd", "cd ..", "clear", "history", "mcfly search"] {
        assert!(!History::should_add(command, None));
    }
}

#[test]
fn the_last_command_is_not_repeated() {
    assert!(!History::should_add("git status", Some("git status")));
    assert!(History::should_add("git status", Some("git  status")));
}

#[test]
fn the_command_that_is_not_repeated_comes_from_any_session() {
    let connection = database();
    add(&connection, "first", "one", "/");
    add(&connection, "second", "two", "/");
    let statement = History::previous_command_query();
    assert_eq!(statement.params.len(), 2);
    let last: String = connection
        .query_row_named(
            &statement.sql,
            &[(":limit", &1i64), (":offset", &0i64)],
            |row| row.get(1),
        )
        .unwrap();
    assert_eq!(last, "second");
    assert!(!History::should_add("second", Some(&last)));
}

#[test]
fn a_command_is_recorded_with_all_its_columns() {
    let connection = database();
    let (recording, action) =
        History::add("make it", "session", "/src", &Some(77), Some(2), &Some("/old".to_string()));
    assert!(matches!(recording.state, AddState::Claiming));
    let mut next = (recording, action);
    loop {
        let event = match &next.1 {
            AddAction::Execute(statement) => AddEvent::Executed { rows: run(&connection, statement) },
            AddAction::Simplify => AddEvent::Simplified { template: "make".to_string() },
            AddAction::Move(_) => panic!("nothing moves"),
            AddAction::Stop => break,
        };
        next = next.0.step(event);
    }
    assert!(matches!(next.0.state, AddState::Finished));
    let row: (i64, String, String, String, i64, i32) = connection
        .query_row(
            "SELECT id, cmd, cmd_tpl, session_id, when_run, exit_code FROM commands",
            NO_PARAMS,
            |row| (row.get(0), row.get(1), row.get(2), row.get(3), row.get(4), row.get(5)),
        )
        .unwrap();
    assert_eq!(
        row,
        (1, "make it".to_string(), "make".to_string(), "session".to_string(), 77, 2)
    );
    let rest: (bool, String, String) = connection
        .query_row("SELECT selected, dir, old_dir FROM commands", NO_PARAMS, |row| {
            (row.get(0), row.get(1), row.get(2))
        })
        .unwrap();
    assert_eq!(rest, (false, "/src".to_string(), "/old".to_string()));
}

#[test]
fn missing_values_are_bound_as_null() {
    let (recording, _) = History::add("x", "s", "/", &None, None, &None);
    let statement = History::insert(&recording.new, "t", true);
    assert_eq!(statement.params.len(), 8);
    assert_eq!(statement.params[3].name, ":when_run");
    assert!(matches!(statement.params[3].value, Value::Null));
    assert_eq!(statement.params[4].name, ":exit_code");
    assert!(matches!(statement.params[4].value, Value::Null));
    assert_eq!(statement.params[5].name, ":selected");
    assert!(matches!(statement.params[5].value, Value::Integer(1)));
    assert_eq!(statement.params[7].name, ":old_dir");
    assert!(matches!(statement.params[7].value, Value::Null));
}

#[test]
fn a_selected_command_is_recorded_as_selected() {
    let connection = database();
    run(&connection, &History::record_selected_from_ui("make", "s", "/src"));
    add(&connection, "make", "s", "/src");
    assert_eq!(count(&connection, "SELECT selected FROM commands"), 1);
    assert_eq!(count(&connection, "SELECT COUNT(*) FROM selected_commands"), 0);
}

#[test]
fn a_selection_elsewhere_does_not_count() {
    let connection = database();
    run(&connection, &History::record_selected_from_ui("make", "s", "/other"));
    run(&connection, &History::record_selected_from_ui("make all", "s", "/src"));
    run(&connection, &History::record_selected_from_ui("make", "t", "/src"));
    add(&connection, "make", "s", "/src");
    assert_eq!(count(&connection, "SELECT selected FROM commands"), 0);
    // What was pending in the session is gone, what is pending in others stays.
    assert_eq!(count(&connection, "SELECT COUNT(*) FROM selected_commands"), 1);
    assert_eq!(
        count(&connection, "SELECT COUNT(*) FROM selected_commands WHERE session_id = 't'"),
        1
    );
}

#[test]
fn a_selection_counts_once() {
    let connection = database();
    run(&connection, &History::record_selected_from_ui("make", "s", "/src"));
    run(&connection, &History::record_selected_from_ui("make", "s", "/src"));
    add(&connection, "make", "s", "/src");
    add(&connection, "make", "s", "/src");
    assert_eq!(count(&connection, "SELECT selected FROM commands WHERE id = 1"), 1);
    assert_eq!(count(&connection, "SELECT selected FROM commands WHERE id = 2"), 0);
}

#[test]
fn a_claim_that_changes_rows_means_selected() {
    assert!(!History::was_selected(0));
    assert!(History::was_selected(1));
    assert!(History::was_selected(5));
}

#[test]
fn the_selection_is_settled_before_the_insert() {
    let check = History::determine_if_selected_from_ui("make", "s", "/src");
    let (recording, action) = History::add("make", "s", "/src", &None, None, &None);
    match action {
        AddAction::Execute(statement) => assert_eq!(statement.sql, check.claim.sql),
        _ => panic!("the selection is claimed first"),
    }
    let (recording, action) = recording.step(AddEvent::Executed { rows: 2 });
    match action {
        AddAction::Execute(statement) => assert_eq!(statement.sql, check.clear.sql),
        _ => panic!("the other selections are cleared next"),
    }
    let (recording, action) = recording.step(AddEvent::Executed { rows: 0 });
    assert!(matches!(action, AddAction::Simplify));
    let (recording, action) = recording.step(AddEvent::Simplified { template: "t".to_string() });
    match action {
        AddAction::Execute(statement) => {
            assert!(statement.sql.starts_with("INSERT INTO commands"));
            assert!(matches!(statement.params[5].value, Value::Integer(1)));
        }
        _ => panic!("the command is inserted last"),
    }
    let (recording, action) = recording.step(AddEvent::Executed { rows: 1 });
    assert!(matches!(action, AddAction::Stop));
    assert!(matches!(recording.state, AddState::Finished));
}

#[test]
fn recorded_paths_follow_a_move_before_the_command_is_recorded() {
    let (recording, action) = History::add("mv a b", "s", "/src", &None, Some(0), &None);
    assert!(matches!(action, AddAction::Move(MoveAction::Parse)));
    let parts = vec!["a".to_string(), "b".to_string()];
    let (recording, action) = recording.step(AddEvent::Move(MoveEvent::Arguments(parts)));
    assert!(matches!(action, AddAction::Move(MoveAction::Normalize { .. })));
    let paths = MovePaths::new("/src/a".to_string(), "/src/b".to_string());
    let (recording, action) = recording.step(AddEvent::Move(MoveEvent::Normalized(paths)));
    assert!(matches!(action, AddAction::Move(MoveAction::Inspect { .. })));
    let event = MoveEvent::Inspected { exists: true, is_dir: true };
    let (recording, action) = recording.step(AddEvent::Move(event));
    assert!(matches!(action, AddAction::Move(MoveAction::Update { .. })));
    let (recording, action) = recording.step(AddEvent::PathsUpdated);
    assert!(matches!(recording.state, AddState::Claiming));
    assert!(matches!(action, AddAction::Execute(_)));
}

#[test]
fn a_failed_move_is_recorded_at_once() {
    let (recording, _) = History::add("mv a b", "s", "/src", &None, Some(1), &None);
    assert!(matches!(recording.state, AddState::Claiming));
}

#[test]
fn a_deleted_command_is_gone_from_both_tables() {
    let connection = database();
    add(&connection, "rm -rf /", "s", "/");
    add(&connection, "echo", "s", "/");
    run(&connection, &History::record_selected_from_ui("rm -rf /", "t", "/"));
    run(&connection, &History::record_selected_from_ui("echo", "t", "/"));
    let (selected, recorded) = History::delete_command("rm -rf /");
    assert_eq!(run(&connection, &selected), 1);
    assert_eq!(run(&connection, &recorded), 1);
    assert_eq!(count(&connection, "SELECT COUNT(*) FROM commands"), 1);
    assert_eq!(count(&connection, "SELECT COUNT(*) FROM commands WHERE cmd = 'echo'"), 1);
    assert_eq!(count(&connection, "SELECT COUNT(*) FROM selected_commands"), 1);
}

#[test]
fn typed_text_is_only_bound() {
    let connection = database();
    add(&connection, "'); DROP TABLE commands; --", "s", "/");
    assert_eq!(count(&connection, "SELECT COUNT(*) FROM commands"), 1);
    let (one, _) = History::delete_command("a");
    let (other, _) = History::delete_command("b'");
    assert_eq!(one.sql, other.sql);
}

#[test]
fn the_last_command_only_keeps_out() {
    for command in ["make", "", " make", "ls", "#mcfly: x"] {
        for last in [None, Some("make"), Some("ls"), Some("git log")] {
            let alone = History::should_add(command, None);
            assert_eq!(History::should_add(command, last), alone && last != Some(command));
        }
    }
}
