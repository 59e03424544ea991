use mcfly::history::moves::{Landing, MoveAction, MoveEvent, MovePaths, MoveState};
use mcfly::history::History;

/// Follows a command through, where `look` tells what stands at a path.
fn follow(
    command: &str,
    exit_code: Option<i32>,
    parts: &[&str],
    look: fn(&str) -> (bool, bool),
) -> Option<(String, String)> {
    let mut next = History::possibly_update_paths(command, exit_code);
    loop {
        let event = match next.1 {
            MoveAction::Parse => {
                MoveEvent::Arguments(parts.iter().map(|part| part.to_string()).collect())
            }
            MoveAction::Normalize { from, to } => MoveEvent::Normalized(MovePaths::new(from, to)),
            MoveAction::Inspect { path } => {
                let (exists, is_dir) = look(&path);
                MoveEvent::Inspected { exists, is_dir }
            }
            MoveAction::Update { from, to } => return Some((from, to)),
            MoveAction::Stop => return None,
        };
        next = next.0.step(event);
    }
}

fn pair(from: &str, to: &str) -> Option<(String, String)> {
    Some((from.to_string(), to.to_string()))
}

fn name_of(path: &str) -> Option<String> {
    match MovePaths::new(path.to_string(), "/t".to_string()).landing {
        Landing::NoName => None,
        Landing::NotUnicode => panic!("every text is Unicode"),
        Landing::Inside { name, .. } => Some(name),
    }
}

fn inside(to: &str) -> String {
    match MovePaths::new("/x/name".to_string(), to.to_string()).landing {
        Landing::Inside { path, .. } => path,
        _ => panic!("the source has a name"),
    }
}

#[test]
fn a_successful_mv_is_looked_at() {
    for command in ["mv a b", "MV a b", "Mv  a b", "mv "] {
        let (state, action) = History::possibly_update_paths(command, Some(0));
        assert!(matches!(state, MoveState::Parsing));
        assert!(matches!(action, MoveAction::Parse));
        let (_, action) = History::possibly_update_paths(command, None);
        assert!(matches!(action, MoveAction::Parse));
    }
}

#[test]
fn other_commands_are_not_looked_at() {
    for command in ["", "mv", "mva b", " mv a b", "cp a b", "mv a* b", "mv a? b", "mv a b*"] {
        let (state, action) = History::possibly_update_paths(command, Some(0));
        assert!(matches!(state, MoveState::Finished));
        assert!(matches!(action, MoveAction::Stop));
    }
}

#[test]
fn a_failed_mv_is_not_looked_at() {
    let (_, action) = History::possibly_update_paths("mv a b", Some(1));
    assert!(matches!(action, MoveAction::Stop));
    let (_, action) = History::possibly_update_paths("mv a b", Some(-1));
    assert!(matches!(action, MoveAction::Stop));
}

#[test]
fn the_lower_case_decides_whether_it_is_an_mv() {
    assert!(History::is_move("mv a", "MV A", Some(0)));
    assert!(!History::is_move("MV a", "mv a", Some(0)));
    assert!(!History::is_move("mv a", "mv ?", None));
    assert!(!History::is_move("mv a", "mv *", None));
    assert!(!History::is_move("mv a", "mv a", Some(2)));
}

#[test]
fn only_a_move_of_one_thing_is_followed() {
    assert_eq!(follow("mv a b c", Some(0), &["/a", "/b", "/c"], |_| (true, true)), None);
    assert_eq!(follow("mv a", Some(0), &["/a"], |_| (true, true)), None);
}

#[test]
fn a_directory_moved_into_another_is_followed_there() {
    let look = |path: &str| (path == "/b/a" || path == "/b", true);
    assert_eq!(follow("mv /a /b", Some(0), &["/a", "/b"], look), pair("/a", "/b/a"));
}

#[test]
fn a_renamed_directory_is_followed_to_its_new_name() {
    let look = |path: &str| (path == "/b", path == "/b");
    assert_eq!(follow("mv /a /b", Some(0), &["/a", "/b"], look), pair("/a", "/b"));
}

#[test]
fn files_are_not_followed() {
    // A file of the source's name stands in the target.
    let look = |path: &str| (true, path == "/b");
    assert_eq!(follow("mv /a /b", Some(0), &["/a", "/b"], look), None);
    // The target is a file.
    let look = |path: &str| (path == "/b", false);
    assert_eq!(follow("mv /a /b", Some(0), &["/a", "/b"], look), None);
    // The name of the source looks like that of a file.
    assert_eq!(follow("mv /a.txt /b", Some(0), &["/a.txt", "/b"], |_| (true, true)), None);
    // Nothing is there.
    assert_eq!(follow("mv /a /b", Some(0), &["/a", "/b"], |_| (false, false)), None);
}

#[test]
fn a_source_without_a_name_is_followed_to_the_target() {
    let look = |path: &str| (path == "/b", path == "/b");
    assert_eq!(follow("mv .. /b", Some(0), &["..", "/b"], look), pair("..", "/b"));
    assert_eq!(follow("mv / /b", Some(0), &["/", "/b"], look), pair("/", "/b"));
}

#[test]
fn a_name_that_is_not_unicode_is_not_followed() {
    let paths = MovePaths {
        from: "/a".to_string(),
        to: "/b".to_string(),
        landing: Landing::NotUnicode,
    };
    let (state, action) = MoveState::Normalizing.step(MoveEvent::Normalized(paths));
    assert!(matches!(state, MoveState::Finished));
    assert!(matches!(action, MoveAction::Stop));
}

#[test]
fn the_name_is_the_last_component() {
    assert_eq!(name_of("/usr/bin"), Some("bin".to_string()));
    assert_eq!(name_of("/usr/bin/"), Some("bin".to_string()));
    assert_eq!(name_of("/usr//bin//"), Some("bin".to_string()));
    assert_eq!(name_of("/usr/bin/."), Some("bin".to_string()));
    assert_eq!(name_of("a.b"), Some("a.b".to_string()));
    assert_eq!(name_of("...") , Some("...".to_string()));
    assert_eq!(name_of("/usr/bin/.."), None);
    assert_eq!(name_of("a/../."), None);
    assert_eq!(name_of("/"), None);
    assert_eq!(name_of("."), None);
    assert_eq!(name_of("./"), None);
    assert_eq!(name_of("/."), None);
    assert_eq!(name_of(""), None);
}

#[test]
fn the_name_comes_behind_the_target() {
    assert_eq!(inside("/"), "/name");
    assert_eq!(inside("/b/"), "/b/name");
    assert_eq!(inside(""), "name");
    let joined = inside("/b");
    assert!(joined == "/b/name" || joined == "/b\\name");
}

#[test]
fn paths_are_kept_as_they_are() {
    let paths = MovePaths::new("/a/./b".to_string(), "/c/".to_string());
    assert_eq!(paths.from, "/a/./b");
    assert_eq!(paths.to, "/c/");
}

#[test]
fn a_look_takes_at_most_four_events() {
    let mut next = History::possibly_update_paths("mv /x/a /y", Some(0));
    let paths = MovePaths::new("/x/a".to_string(), "/y".to_string());
    let parts = vec!["/x/a".to_string(), "/y".to_string()];
    next = next.0.step(MoveEvent::Arguments(parts));
    next = next.0.step(MoveEvent::Normalized(paths));
    next = next.0.step(MoveEvent::Inspected { exists: false, is_dir: false });
    assert!(matches!(next.0, MoveState::InspectingTarget { .. }));
    next = next.0.step(MoveEvent::Inspected { exists: true, is_dir: true });
    assert!(matches!(next.0, MoveState::Finished));
    assert!(matches!(next.1, MoveAction::Update { .. }));
}

#[test]
fn a_colon_inside_a_path_belongs_to_a_name() {
    assert_eq!(name_of("/srv/a:b"), Some("a:b".to_string()));
    assert_eq!(name_of("/srv:1/ab/"), Some("ab".to_string()));
    assert_eq!(inside("/srv:1/"), "/srv:1/name");
    let look = |path: &str| (path == "/t:1/" || path == "/t:1/ab", true);
    let parts = ["/srv:1/ab", "/t:1/"];
    assert_eq!(follow("mv x y", Some(0), &parts, look), pair("/srv:1/ab", "/t:1/ab"));
}

#[test]
fn a_file_with_a_colon_in_its_path_is_not_followed() {
    for from in ["/srv/a:b.txt", "/srv:1/ab.txt"] {
        assert_eq!(follow("mv x y", Some(0), &[from, "/t"], |_| (true, true)), None);
    }
    let file_inside = |path: &str| (true, path == "/t/");
    assert_eq!(follow("mv x y", Some(0), &["/srv/a:b", "/t/"], file_inside), None);
}

#[test]
fn other_paths_are_read_as_on_one_of_two_platforms() {
    for (path, unix, windows) in [
        ("C:\\x\\ab", "C:\\x\\ab", "ab"),
        ("C:ab", "C:ab", "ab"),
        ("/x/c\\d", "c\\d", "d"),
        ("//server/share/ab/", "ab", "ab"),
        ("//ab", "ab", "ab"),
        ("\\\\ab\\", "\\\\ab\\", "ab"),
        ("\\\\.\\COM1\\ab", "\\\\.\\COM1\\ab", "ab"),
        ("\\\\?\\C:\\x\\ab", "\\\\?\\C:\\x\\ab", "ab"),
    ] {
        let name = name_of(path).unwrap();
        assert!(name == unix || name == windows);
    }
    for (to, unix, windows) in [
        ("C:", "C:/name", "C:name"),
        ("//ab", "//ab/name", "//ab\\name"),
        ("//server/share", "//server/share/name", "//server/share\\name"),
        ("\\\\?\\C:\\x", "\\\\?\\C:\\x/name", "\\\\?\\C:\\x\\name"),
        ("C:\\x", "C:\\x/name", "C:\\x\\name"),
        ("C:\\x\\", "C:\\x\\/name", "C:\\x\\name"),
    ] {
        let path = inside(to);
        assert!(path == unix || path == windows);
    }
}
