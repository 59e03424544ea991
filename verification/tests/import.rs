use mcfly::history::import::{ShellCommand, Source, CREATE_TABLES};
use mcfly::history::statement::{Statement, Value};
use mcfly::history::History;
use rusqlite::types::ToSql;
use rusqlite::{Connection, NO_PARAMS};

fn shell(command: &str, template: &str, when: i64) -> ShellCommand {
    ShellCommand { command: command.to_string(), template: template.to_string(), when }
}

fn run(connection: &Connection, statement: &Statement) -> usize {
    let values: Vec<rusqlite::types::Value> = statement
        .params
        .iter()
        .map(|param| match &param.value {
            Value::Null => rusqlite::types::Value::Null,
            Value::Integer(i) => rusqlite::types::Value::Integer(*i),
            Value::Double(d) => rusqlite::types::Value::Real(*d as f64),
            Value::Text(text) => rusqlite::types::Value::Text(text.clone()),
        })
        .collect();
    let params: Vec<(&str, &dyn ToSql)> = statement
        .params
        .iter()
        .zip(values.iter())
        .map(|(param, value)| (param.name, value as &dyn ToSql))
        .collect();
    connection.execute_named(&statement.sql, &params).unwrap()
}

fn text_of(statement: &Statement, index: usize) -> String {
    match &statement.params[index].value {
        Value::Text(text) => text.clone(),
        _ => panic!("not a text"),
    }
}

#[test]
fn the_database_is_used_where_it_exists() {
    assert_eq!(History::load(true), Source::Database);
    assert_eq!(History::load(false), Source::ShellHistory);
}

#[test]
fn ignored_and_empty_commands_are_not_imported() {
    let commands = vec![
        shell("ls", "ls", 1),
        shell("git log", "git log", 2),
        shell("", "x", 3),
        shell("echo", "", 4),
        shell("mcfly search", "mcfly search", 5),
        shell(" spaced", " spaced", 6),
        shell("#mcfly: x", "#mcfly: x", 7),
    ];
    let statements = History::from_shell_history(&commands);
    let imported: Vec<String> = statements.iter().map(|s| text_of(s, 0)).collect();
    assert_eq!(imported, ["git log", " spaced", "#mcfly: x"]);
    assert!(History::from_shell_history(&vec![]).is_empty());
}

#[test]
fn imported_commands_are_in_the_tables() {
    let connection = Connection::open_in_memory().unwrap();
    connection.execute_batch(CREATE_TABLES).unwrap();
    let commands = vec![shell("git log", "git", 42)];
    for statement in &History::from_shell_history(&commands) {
        assert_eq!(run(&connection, statement), 1);
    }
    let row: (String, String, String, i64, i64, bool) = connection
        .query_row(
            "SELECT cmd, cmd_tpl, session_id, when_run, exit_code, selected FROM commands",
            NO_PARAMS,
            |row| (row.get(0), row.get(1), row.get(2), row.get(3), row.get(4), row.get(5)),
        )
        .unwrap();
    assert_eq!(
        row,
        ("git log".to_string(), "git".to_string(), "IMPORTED".to_string(), 42, 0, false)
    );
    let indexes: i64 = connection
        .query_row("SELECT COUNT(*) FROM sqlite_master WHERE type = 'index'", NO_PARAMS, |row| {
            row.get(0)
        })
        .unwrap();
    assert_eq!(indexes, 4);
}
