use mcfly::history::command::Command;
use mcfly::history::import::CREATE_TABLES;
use mcfly::history::statement::{Statement, Value};
use mcfly::history::History;
use rusqlite::types::ToSql;
use rusqlite::{Connection, NO_PARAMS};

fn database() -> Connection {
    let connection = Connection::open_in_memory().unwrap();
    connection.execute_batch(CREATE_TABLES).unwrap();
    for (cmd, session) in [("a", "one"), ("b", "two"), ("c", "one"), ("d", "two"), ("e", "one")] {
        let sql = format!(
            "INSERT INTO commands (cmd, cmd_tpl, session_id, when_run, exit_code, selected) \
             VALUES ('{}', 'tpl {}', '{}', 10, 0, 1)",
            cmd, cmd, session
        );
        connection.execute(&sql, NO_PARAMS).unwrap();
    }
    connection
}

fn list(connection: &Connection, statement: &Statement) -> Vec<Command> {
    let values: Vec<rusqlite::types::Value> = statement
        .params
        .iter()
        .map(|param| match &param.value {
            Value::Null => rusqlite::types::Value::Null,
            Value::Integer(i) => rusqlite::types::Value::Integer(*i),
            Value::Double(d) => rusqlite::types::Value::Real(*d as f64),
            Value::Text(text) => rusqlite::types::Value::Text(text.clone()),
        })
        .collect();
    let params: Vec<(&str, &dyn ToSql)> = statement
        .params
        .iter()
        .zip(values.iter())
        .map(|(param, value)| (param.name, value as &dyn ToSql))
        .collect();
    let mut prepared = connection.prepare(&statement.sql).unwrap();
    let rows = prepared
        .query_map_named(&params, |row| {
            History::listed(
                row.get(0),
                row.get(1),
                row.get(2),
                row.get(3),
                row.get(4),
                row.get(5),
                row.get(6),
                row.get(7),
            )
        })
        .unwrap();
    let mut read = Vec::new();
    for row in rows {
        read.push(row.ok());
    }
    History::run_query(read)
}

fn names(commands: &[Command]) -> Vec<String> {
    commands.iter().map(|command| command.cmd.clone()).collect()
}

fn command(cmd: &str, template: &str) -> Command {
    let mut command = Command::default();
    command.cmd = cmd.to_string();
    command.cmd_tpl = template.to_string();
    command
}

#[test]
fn a_listing_has_the_latest_first() {
    let connection = database();
    let all = list(&connection, &History::commands(&None, 10, 0, false));
    assert_eq!(names(&all), ["e", "d", "c", "b", "a"]);
    let some = list(&connection, &History::commands(&None, 2, 1, false));
    assert_eq!(names(&some), ["d", "c"]);
    let unlimited = list(&connection, &History::commands(&None, -1, 3, false));
    assert_eq!(names(&unlimited), ["b", "a"]);
}

#[test]
fn a_listing_of_a_session_keeps_to_it() {
    let connection = database();
    let one = list(&connection, &History::commands(&Some("one".to_string()), 10, 0, false));
    assert_eq!(names(&one), ["e", "c", "a"]);
    let none = list(&connection, &History::commands(&Some("x".to_string()), 10, 0, false));
    assert!(none.is_empty());
}

#[test]
fn a_random_listing_holds_the_same_commands() {
    let connection = database();
    let mut drawn = names(&list(&connection, &History::commands(&None, 10, 0, true)));
    drawn.sort();
    assert_eq!(drawn, ["a", "b", "c", "d", "e"]);
    let two = list(&connection, &History::commands(&Some("two".to_string()), 10, 0, true));
    assert_eq!(two.len(), 2);
}

#[test]
fn the_text_of_a_listing() {
    let plain = History::commands(&None, 1, 0, false);
    assert_eq!(
        plain.sql,
        "SELECT id, cmd, cmd_tpl, session_id, when_run, exit_code, selected, dir FROM commands \
         ORDER BY id DESC LIMIT :limit OFFSET :offset"
    );
    let session = History::commands(&Some("s".to_string()), 1, 0, true);
    assert_eq!(
        session.sql,
        "SELECT id, cmd, cmd_tpl, session_id, when_run, exit_code, selected, dir FROM commands \
         WHERE session_id = :session_id ORDER BY RANDOM() DESC LIMIT :limit OFFSET :offset"
    );
    let bound: Vec<&str> = session.params.iter().map(|param| param.name).collect();
    assert_eq!(bound, [":session_id", ":limit", ":offset"]);
}

#[test]
fn a_listed_command_has_the_values_of_its_row() {
    let connection = database();
    let commands = list(&connection, &History::last_command_query(&Some("two".to_string())));
    assert_eq!(commands.len(), 1);
    let last = History::last_command(commands).unwrap();
    assert_eq!(last.id, 4);
    assert_eq!(last.cmd, "d");
    assert_eq!(last.cmd_tpl, "tpl d");
    assert_eq!(last.session_id, "two");
    assert_eq!(last.when_run, Some(10));
    assert_eq!(last.exit_code, Some(0));
    assert!(last.selected);
    assert_eq!(last.dir, None);
    assert!(last.match_bounds.is_empty());
}

#[test]
fn the_last_command_is_the_first_listed() {
    assert!(History::last_command(vec![]).is_none());
    let last = History::last_command(vec![command("x", ""), command("y", "")]).unwrap();
    assert_eq!(last.cmd, "x");
}

#[test]
fn templates_keep_the_order_of_the_listing() {
    let listed = vec![command("x", "1"), command("y", "2"), command("z", "")];
    assert_eq!(History::last_command_templates(listed), ["1", "2", ""]);
    assert!(History::last_command_templates(vec![]).is_empty());
}

#[test]
fn rows_that_cannot_be_read_are_left_out() {
    let rows = vec![Some(command("x", "")), None, Some(command("y", "")), None];
    assert_eq!(names(&History::run_query(rows)), ["x", "y"]);
    assert!(History::run_query(vec![None]).is_empty());
}

#[test]
fn a_command_is_shown_by_its_text() {
    let shown = command("echo \u{e9}", "echo");
    assert_eq!(shown.to_string(), "echo \u{e9}");
    assert_eq!(String::from(shown), "echo \u{e9}");
}

#[test]
fn a_default_command_is_empty() {
    let empty = Command::default();
    assert_eq!(empty.id, 0);
    assert_eq!(empty.cmd, "");
    assert_eq!(empty.cmd_tpl, "");
    assert_eq!(empty.session_id, "");
    assert_eq!(empty.when_run, None);
    assert_eq!(empty.exit_code, None);
    assert!(!empty.selected);
    assert_eq!(empty.dir, None);
    assert!(empty.match_bounds.is_empty());
}

#[test]
fn a_clone_is_the_same_command() {
    let mut one = command("x", "t");
    one.id = 3;
    one.dir = Some("/d".to_string());
    one.match_bounds = vec![(1, 2), (3, 4)];
    let other = one.clone();
    assert_eq!(other.id, 3);
    assert_eq!(other.cmd, "x");
    assert_eq!(other.dir, Some("/d".to_string()));
    assert_eq!(other.match_bounds, vec![(1, 2), (3, 4)]);
}
