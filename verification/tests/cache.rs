use mcfly::history::cache::{CacheAction, CacheReply, CacheStage};
use mcfly::history::import::CREATE_TABLES;
use mcfly::history::matching::FIND_MATCHES;
use mcfly::history::statement::{Statement, Value};
use mcfly::history::History;
use rusqlite::types::ToSql;
use rusqlite::{Connection, NO_PARAMS};

fn values_of(statement: &Statement) -> Vec<rusqlite::types::Value> {
    statement
        .params
        .iter()
        .map(|param| match &param.value {
            Value::Null => rusqlite::types::Value::Null,
            Value::Integer(i) => rusqlite::types::Value::Integer(*i),
            Value::Double(d) => rusqlite::types::Value::Real(*d as f64),
            Value::Text(text) => rusqlite::types::Value::Text(text.clone()),
        })
        .collect()
}

fn bound<'a>(
    statement: &'a Statement,
    values: &'a [rusqlite::types::Value],
) -> Vec<(&'a str, &'a dyn ToSql)> {
    statement
        .params
        .iter()
        .zip(values.iter())
        .map(|(param, value)| (param.name, value as &dyn ToSql))
        .collect()
}

fn run(connection: &Connection, statement: &Statement) {
    let values = values_of(statement);
    connection.execute_named(&statement.sql, &bound(statement, &values)).unwrap();
}

fn templates(connection: &Connection, statement: &Statement) -> Vec<String> {
    let values = values_of(statement);
    let mut prepared = connection.prepare(&statement.sql).unwrap();
    let rows = prepared.query_map_named(&bound(statement, &values), |row| row.get(2)).unwrap();
    let mut out = Vec::new();
    for row in rows {
        out.push(row.unwrap());
    }
    out
}

/// A database with commands `(cmd, session, when_run, exit_code, selected, dir)`.
fn database(commands: &[(&str, &str, i64, i64, i64, &str)]) -> Connection {
    let connection = Connection::open_in_memory().unwrap();
    connection.execute_batch(CREATE_TABLES).unwrap();
    connection
        .create_scalar_function("nn_rank", 10, true, |context| {
            let age: f64 = context.get(0)?;
            let occurrences: f64 = context.get(9)?;
            Ok(occurrences - age)
        })
        .unwrap();
    for (cmd, session, when_run, exit_code, selected, dir) in commands {
        connection
            .execute_named(
                "INSERT INTO commands (cmd, cmd_tpl, session_id, when_run, exit_code, selected, dir) \
                 VALUES (:cmd, :cmd, :session, :when, :exit, :selected, :dir)",
                &[
                    (":cmd", cmd),
                    (":session", session),
                    (":when", when_run),
                    (":exit", exit_code),
                    (":selected", selected),
                    (":dir", dir),
                ],
            )
            .unwrap();
    }
    connection
}

fn build(connection: &Connection, session: Option<&str>, dir: &str) {
    let session = session.map(|s| s.to_string());
    let (mut table, mut action) =
        History::build_cache_table(dir, &session, None, None, Some(1000));
    loop {
        let reply = match action {
            CacheAction::Templates(statement) => {
                CacheReply::Templates(templates(connection, &statement))
            }
            CacheAction::Execute(statement) => {
                run(connection, &statement);
                CacheReply::Executed
            }
            CacheAction::Range(statement) => connection
                .query_row(&statement.sql, NO_PARAMS, |row| CacheReply::Range {
                    min: row.get(0),
                    max: row.get(1),
                })
                .unwrap(),
            CacheAction::Maximum(statement) => CacheReply::Maximum(
                connection.query_row(&statement.sql, NO_PARAMS, |row| row.get(0)).ok(),
            ),
            CacheAction::Time => CacheReply::Time(5000),
            CacheAction::Stop => return,
        };
        let next = table.step(reply);
        table = next.0;
        action = next.1;
    }
}

fn factor(connection: &Connection, name: &str, cmd: &str) -> f64 {
    connection
        .query_row_named(
            &format!("SELECT {} FROM contextual_commands WHERE cmd = :cmd", name),
            &[(":cmd", &cmd)],
            |row| row.get(0),
        )
        .unwrap()
}

fn double(statement: &Statement, name: &str) -> i128 {
    for param in &statement.params {
        if param.name == name {
            if let Value::Double(d) = param.value {
                return d;
            }
        }
    }
    panic!("{} is not bound to a double", name)
}

fn integer(statement: &Statement, name: &str) -> i64 {
    for param in &statement.params {
        if param.name == name {
            if let Value::Integer(i) = param.value {
                return i;
            }
        }
    }
    panic!("{} is not bound to an integer", name)
}

fn text(statement: &Statement, name: &str) -> String {
    for param in &statement.params {
        if param.name == name {
            if let Value::Text(t) = &param.value {
                return t.clone();
            }
        }
    }
    panic!("{} is not bound to a text", name)
}

fn strings(texts: &[&str]) -> Vec<String> {
    texts.iter().map(|t| t.to_string()).collect()
}

/// The statement that creates the table, for the given replies.
fn creation(
    context: &[&str],
    range: (i64, i64),
    maxima: [Option<i64>; 3],
    times: [Option<i64>; 3],
) -> Statement {
    let (table, _) = History::build_cache_table("/d", &None, times[0], times[1], times[2]);
    let (table, _) = table.step(CacheReply::Templates(strings(context)));
    let table = if table.stage == CacheStage::AllTemplates {
        table.step(CacheReply::Templates(strings(context))).0
    } else {
        table
    };
    let (table, _) = table.step(CacheReply::Executed);
    let (table, _) = table.step(CacheReply::Range { min: range.0, max: range.1 });
    let (table, _) = table.step(CacheReply::Maximum(maxima[0]));
    let (table, _) = table.step(CacheReply::Maximum(maxima[1]));
    let (table, action) = table.step(CacheReply::Maximum(maxima[2]));
    assert!(matches!(action, CacheAction::Time));
    match table.step(CacheReply::Time(7)).1 {
        CacheAction::Execute(statement) => statement,
        _ => panic!("the table is created"),
    }
}

#[test]
fn the_table_is_built_in_a_fixed_order() {
    let (table, action) = History::build_cache_table("/d", &Some("s".to_string()), None, None, None);
    match action {
        CacheAction::Templates(statement) => {
            assert_eq!(text(&statement, ":session_id"), "s");
            assert_eq!(integer(&statement, ":limit"), 3);
            assert_eq!(integer(&statement, ":offset"), 0);
        }
        _ => panic!("the context comes first"),
    }
    let (table, action) = table.step(CacheReply::Templates(strings(&["a", "b", "c"])));
    match action {
        CacheAction::Execute(s) => assert!(s.sql.starts_with("DROP TABLE IF EXISTS temp.")),
        _ => panic!("the old table is dropped"),
    }
    let (table, action) = table.step(CacheReply::Executed);
    match action {
        CacheAction::Range(s) => assert!(s.sql.contains("MIN(when_run), MAX(when_run)")),
        _ => panic!("the range is read"),
    }
    let (table, action) = table.step(CacheReply::Range { min: 1, max: 2 });
    match action {
        CacheAction::Maximum(s) => assert!(!s.sql.contains("selected") && s.sql.contains("COUNT")),
        _ => panic!("the occurrences are read"),
    }
    let (table, action) = table.step(CacheReply::Maximum(None));
    match action {
        CacheAction::Maximum(s) => assert!(s.sql.contains("WHERE selected = 1")),
        _ => panic!("the selected occurrences are read"),
    }
    let (table, action) = table.step(CacheReply::Maximum(None));
    match action {
        CacheAction::Maximum(s) => assert!(s.sql.contains("MAX(LENGTH(cmd))")),
        _ => panic!("the length is read"),
    }
    let (table, action) = table.step(CacheReply::Maximum(None));
    assert!(matches!(action, CacheAction::Time));
    let (table, action) = table.step(CacheReply::Time(9));
    match action {
        CacheAction::Execute(s) => assert!(s.sql.starts_with("CREATE TEMP TABLE")),
        _ => panic!("the table is created"),
    }
    let (table, action) = table.step(CacheReply::Executed);
    match action {
        CacheAction::Execute(s) => assert!(s.sql.contains("nn_rank(")),
        _ => panic!("the table is ranked"),
    }
    let (table, action) = table.step(CacheReply::Executed);
    match action {
        CacheAction::Execute(s) => assert!(s.sql.starts_with("CREATE INDEX temp.")),
        _ => panic!("the table is indexed"),
    }
    let (table, action) = table.step(CacheReply::Executed);
    assert!(matches!(action, CacheAction::Stop));
    assert_eq!(table.stage, CacheStage::Finished);
}

#[test]
fn a_short_session_uses_the_commands_of_all() {
    let (table, _) = History::build_cache_table("/d", &Some("s".to_string()), None, None, None);
    let (table, action) = table.step(CacheReply::Templates(strings(&["a", "b"])));
    assert_eq!(table.stage, CacheStage::AllTemplates);
    match action {
        CacheAction::Templates(s) => assert!(!s.sql.contains("session_id =")),
        _ => panic!("the context of all sessions is asked for"),
    }
}

#[test]
fn the_context_is_filled_up() {
    let full = creation(&["a", "b", "c", "d"], (1, 2), [None; 3], [None; 3]);
    assert_eq!(text(&full, ":last_commands0"), "a");
    assert_eq!(text(&full, ":last_commands1"), "b");
    assert_eq!(text(&full, ":last_commands2"), "c");
    let short = creation(&["a"], (1, 2), [None; 3], [None; 3]);
    assert_eq!(text(&short, ":last_commands0"), "a");
    assert_eq!(text(&short, ":last_commands1"), "");
    assert_eq!(text(&short, ":last_commands2"), "");
}

#[test]
fn the_duration_is_never_zero() {
    let plain = creation(&[], (100, 350), [None; 3], [None; 3]);
    assert_eq!(double(&plain, ":history_duration"), 250);
    assert_eq!(double(&plain, ":when_run_max"), 350);
    let single = creation(&[], (100, 100), [None; 3], [None; 3]);
    assert_eq!(double(&single, ":history_duration"), 3600);
    let widest = creation(&[], (i64::MIN, i64::MAX), [None; 3], [None; 3]);
    assert_eq!(double(&widest, ":history_duration"), u64::MAX as i128);
}

#[test]
fn missing_maxima_have_defaults() {
    let missing = creation(&[], (1, 2), [None; 3], [None; 3]);
    assert_eq!(double(&missing, ":max_occurrences"), 1);
    assert_eq!(double(&missing, ":max_selected_occurrences"), 1);
    assert_eq!(double(&missing, ":max_length"), 100);
    let known = creation(&[], (1, 2), [Some(5), Some(6), Some(7)], [None; 3]);
    assert_eq!(double(&known, ":max_occurrences"), 5);
    assert_eq!(double(&known, ":max_selected_occurrences"), 6);
    assert_eq!(double(&known, ":max_length"), 7);
    assert_eq!(double(&known, ":lookback_f64"), 3);
    assert_eq!(integer(&known, ":lookback"), 3);
    assert_eq!(text(&known, ":directory"), "/d");
}

#[test]
fn missing_times_are_the_earliest_and_the_present() {
    let missing = creation(&[], (1, 2), [None; 3], [None; 3]);
    assert_eq!(integer(&missing, ":start_time"), 0);
    assert_eq!(integer(&missing, ":end_time"), 7);
    assert_eq!(integer(&missing, ":now"), 7);
    let given = creation(&[], (1, 2), [None; 3], [Some(10), Some(20), Some(30)]);
    assert_eq!(integer(&given, ":start_time"), 10);
    assert_eq!(integer(&given, ":end_time"), 20);
    assert_eq!(integer(&given, ":now"), 30);
}

#[test]
fn factors_are_those_of_the_recorded_commands() {
    let connection = database(&[
        ("make", "s", 100, 0, 1, "/d"),
        ("git log", "s", 200, 0, 0, "/d"),
        ("make", "s", 300, 1, 0, "/e"),
        ("cargo", "s", 900, 2, 0, "/d"),
        ("git log", "s", 950, 0, 0, "/d"),
    ]);
    build(&connection, Some("s"), "/d");
    assert_eq!(factor(&connection, "exit_factor", "make"), 0.5);
    assert_eq!(factor(&connection, "exit_factor", "git log"), 1.0);
    assert_eq!(factor(&connection, "dir_factor", "make"), 0.5);
    assert_eq!(factor(&connection, "selected_dir_factor", "make"), 1.0);
    assert_eq!(factor(&connection, "selected_dir_factor", "cargo"), 0.0);
    assert_eq!(factor(&connection, "immediate_overlap_factor", "make"), 0.5);
    assert_eq!(factor(&connection, "immediate_overlap_factor", "cargo"), 0.0);
    assert_eq!(factor(&connection, "length_factor", "make"), 4.0 / 7.0);
    assert_eq!(factor(&connection, "age_factor", "make"), 650.0 / 850.0);
    assert_eq!(factor(&connection, "age_factor", "git log"), 0.0);
    assert_eq!(factor(&connection, "recent_failure_factor", "cargo"), 1.0);
    assert_eq!(factor(&connection, "recent_failure_factor", "make"), 0.0);
    assert_eq!(factor(&connection, "occurrences_factor", "make"), 1.0);
    assert_eq!(factor(&connection, "occurrences_factor", "cargo"), 0.5);
    assert_eq!(factor(&connection, "selected_occurrences_factor", "make"), 1.0);
    assert_eq!(factor(&connection, "rank", "cargo"), 0.5 - 50.0 / 850.0);
}

#[test]
fn selections_elsewhere_share_the_directory_factor() {
    let connection = database(&[
        ("make", "s", 100, 0, 1, "/d"),
        ("make", "s", 200, 0, 1, "/e"),
        ("make", "s", 300, 0, 0, "/d"),
        ("git log", "s", 400, 0, 1, "/e"),
    ]);
    build(&connection, Some("s"), "/d");
    assert_eq!(factor(&connection, "selected_dir_factor", "make"), 0.5);
    assert_eq!(factor(&connection, "selected_dir_factor", "git log"), 0.0);
}

#[test]
fn the_table_can_be_built_again_and_searched() {
    let connection = database(&[
        ("make", "s", 100, 0, 0, "/d"),
        ("MAKE install", "s", 200, 0, 0, "/d"),
        ("git log", "s", 300, 0, 0, "/d"),
    ]);
    build(&connection, Some("x"), "/d");
    build(&connection, None, "/d");
    let statement = History::find_matches("mk", 10, true);
    assert_eq!(statement.sql, FIND_MATCHES);
    let values = values_of(&statement);
    let mut prepared = connection.prepare(&statement.sql).unwrap();
    let rows = prepared
        .query_map_named(&bound(&statement, &values), |row| row.get::<_, String>(1))
        .unwrap();
    let mut found = Vec::new();
    for row in rows {
        found.push(row.unwrap());
    }
    assert_eq!(found, ["MAKE install", "make"]);
}
