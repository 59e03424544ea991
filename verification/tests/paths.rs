use mcfly::history::import::CREATE_TABLES;
use mcfly::history::statement::{Statement, Value};
use mcfly::history::History;
use rusqlite::types::ToSql;
use rusqlite::{Connection, NO_PARAMS};

fn database(dirs: &[&str]) -> Connection {
    let connection = Connection::open_in_memory().unwrap();
    connection.execute_batch(CREATE_TABLES).unwrap();
    for dir in dirs {
        connection
            .execute_named(
                "INSERT INTO commands (cmd, cmd_tpl, session_id, when_run, exit_code, selected, dir, old_dir) \
                 VALUES ('x', 'x', 's', 1, 0, 0, :dir, :dir)",
                &[(":dir", dir)],
            )
            .unwrap();
    }
    connection
}

fn run(connection: &Connection, statement: &Statement) -> usize {
    let values: Vec<rusqlite::types::Value> = statement
        .params
        .iter()
        .map(|param| match &param.value {
            Value::Null => rusqlite::types::Value::Null,
            Value::Integer(i) => rusqlite::types::Value::Integer(*i),
            Value::Double(d) => rusqlite::types::Value::Real(*d as f64),
            Value::Text(text) => rusqlite::types::Value::Text(text.clone()),
        })
        .collect();
    let params: Vec<(&str, &dyn ToSql)> = statement
        .params
        .iter()
        .zip(values.iter())
        .map(|(param, value)| (param.name, value as &dyn ToSql))
        .collect();
    connection.execute_named(&statement.sql, &params).unwrap()
}

fn column(connection: &Connection, name: &str) -> Vec<String> {
    let mut prepared =
        connection.prepare(&format!("SELECT {} FROM commands ORDER BY id", name)).unwrap();
    let rows = prepared.query_map(NO_PARAMS, |row| row.get(0)).unwrap();
    let mut out = Vec::new();
    for row in rows {
        out.push(row.unwrap());
    }
    out
}

#[test]
fn paths_at_or_below_the_old_one_move() {
    let connection = database(&["/src", "/src/a/b", "/srcs", "/other/src", "/"]);
    let update = History::update_paths("/src", "/lib/new").unwrap();
    assert_eq!(run(&connection, &update.dir), 2);
    let moved = ["/lib/new", "/lib/new/a/b", "/srcs", "/other/src", "/"];
    assert_eq!(column(&connection, "dir"), moved);
    assert_eq!(column(&connection, "old_dir"), ["/src", "/src/a/b", "/srcs", "/other/src", "/"]);
    assert_eq!(run(&connection, &update.old_dir), 2);
    assert_eq!(column(&connection, "old_dir"), moved);
}

#[test]
fn positions_are_counted_in_characters() {
    let connection = database(&["/\u{e9}t\u{e9}", "/\u{e9}t\u{e9}/\u{4e2d}"]);
    let update = History::update_paths("/\u{e9}t\u{e9}", "/summer").unwrap();
    assert!(matches!(update.dir.params[3].value, Value::Integer(5)));
    assert_eq!(run(&connection, &update.dir), 2);
    assert_eq!(column(&connection, "dir"), ["/summer", "/summer/\u{4e2d}"]);
}

#[test]
fn the_parameters_of_an_update() {
    let update = History::update_paths("/src", "/lib").unwrap();
    let names: Vec<&str> = update.old_dir.params.iter().map(|param| param.name).collect();
    assert_eq!(names, [":like", ":exact", ":new_dir", ":length"]);
    match &update.dir.params[0].value {
        Value::Text(text) => assert_eq!(text, "/src/%"),
        _ => panic!("the pattern is a text"),
    }
    assert!(update.old_dir.sql.contains("SET old_dir ="));
    assert!(update.dir.sql.contains("SET dir ="));
}

#[test]
fn roots_and_empty_paths_do_not_move() {
    assert!(History::update_paths("/", "/src").is_none());
    assert!(History::update_paths("/src", "/").is_none());
    assert!(History::update_paths("", "/src").is_none());
    assert!(History::update_paths("/src", "").is_none());
    assert!(History::update_paths("ab", "cd").is_some());
    // One character of two bytes.
    assert!(History::update_paths("\u{e9}", "\u{e9}").is_some());
}

#[test]
fn an_update_is_reported() {
    assert_eq!(
        History::update_paths_report("/src", "/lib", Some(0)),
        "McFly: Command database paths renamed from /src to /lib (affected 0 commands)"
    );
    assert_eq!(
        History::update_paths_report("/src", "/lib", Some(10203)),
        "McFly: Command database paths renamed from /src to /lib (affected 10203 commands)"
    );
    assert_eq!(
        History::update_paths_report("a", "b", Some(usize::MAX)),
        format!("McFly: Command database paths renamed from a to b (affected {} commands)", usize::MAX)
    );
    assert_eq!(
        History::update_paths_report("/", "/lib", None),
        "McFly: Not updating paths due to invalid options."
    );
}
