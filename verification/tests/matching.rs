use mcfly::history::command::Command;
use mcfly::history::matching::{find_bounds, like_query, match_bounds, match_length};
use mcfly::history::statement::Value;
use mcfly::history::History;

fn text_of(value: &Value) -> String {
    match value {
        Value::Text(text) => text.clone(),
        _ => panic!("not a text"),
    }
}

fn all_texts(alphabet: &[char], longest: usize) -> Vec<String> {
    let mut texts = vec![String::new()];
    let mut layer = vec![String::new()];
    for _ in 0..longest {
        let mut next = Vec::new();
        for text in &layer {
            for c in alphabet {
                let mut longer = text.clone();
                longer.push(*c);
                next.push(longer);
            }
        }
        texts.extend(next.iter().cloned());
        layer = next;
    }
    texts
}

#[test]
fn a_plain_pattern_allows_text_on_both_sides() {
    assert_eq!(like_query("git st", false), "%git st%");
    assert_eq!(like_query("", false), "%%");
}

#[test]
fn a_fuzzy_pattern_allows_text_everywhere() {
    assert_eq!(like_query("ab", true), "%%a%b%%");
    assert_eq!(like_query("", true), "%%%");
    assert_eq!(like_query("\u{e9}x", true), "%%\u{e9}%x%%");
    for text in all_texts(&['a', '%', '\u{4e2d}'], 3) {
        let joined = text.split("").collect::<Vec<&str>>().join("%");
        assert_eq!(like_query(&text, true), format!("%{}%", joined));
    }
}

#[test]
fn a_pattern_keeps_the_search() {
    let letters: String = like_query("a%b", true).chars().filter(|c| *c != '%').collect();
    assert_eq!(letters, "ab");
}

#[test]
fn the_statement_binds_pattern_and_limit() {
    let statement = History::find_matches("ls", -1, false);
    assert_eq!(statement.params.len(), 2);
    assert_eq!(statement.params[0].name, ":like");
    assert_eq!(text_of(&statement.params[0].value), "%ls%");
    assert_eq!(statement.params[1].name, ":limit");
    assert!(matches!(statement.params[1].value, Value::Integer(-1)));
    assert!(statement.sql.contains("ORDER BY rank DESC LIMIT :limit"));
    assert_eq!(text_of(&History::find_matches("ls", 10, true).params[0].value), "%%l%s%%");
}

#[test]
fn plain_matches_are_byte_offsets() {
    assert_eq!(find_bounds("git status; git", "git", 3, false), vec![(0, 3), (12, 15)]);
    assert_eq!(find_bounds("\u{e9}git", "git", 3, false), vec![(2, 5)]);
    assert_eq!(find_bounds("abc", "x", 1, false), vec![]);
}

#[test]
fn plain_matches_do_not_overlap() {
    assert_eq!(find_bounds("aaaaa", "aa", 2, false), vec![(0, 2), (2, 4)]);
}

#[test]
fn an_empty_search_matches_at_every_boundary() {
    assert_eq!(find_bounds("a\u{e9}", "", 0, false), vec![(0, 0), (1, 1), (3, 3)]);
    assert_eq!(find_bounds("", "", 0, false), vec![(0, 0)]);
}

#[test]
fn plain_matches_are_those_of_the_standard_library() {
    for text in all_texts(&['a', 'b', '\u{e9}'], 5) {
        for search in all_texts(&['a', 'b', '\u{e9}'], 2) {
            let expected: Vec<(usize, usize)> = text
                .match_indices(search.as_str())
                .map(|(index, _)| (index, index + search.len()))
                .collect();
            assert_eq!(find_bounds(&text, &search, search.len(), false), expected);
        }
    }
}

#[test]
fn a_fuzzy_match_spans_the_characters_taken() {
    assert_eq!(find_bounds("git status", "gst", 3, true), vec![(0, 6)]);
    assert_eq!(find_bounds("xgxsxt", "gst", 3, true), vec![(1, 6)]);
    assert_eq!(find_bounds("\u{e9}a\u{e9}", "a\u{e9}", 3, true), vec![(2, 4)]);
}

#[test]
fn a_fuzzy_match_of_one_character_or_none_is_one_byte_long() {
    assert_eq!(find_bounds("xyz", "y", 1, true), vec![(1, 2)]);
    assert_eq!(find_bounds("xyz", "q", 1, true), vec![(0, 1)]);
    assert_eq!(find_bounds("", "", 0, true), vec![(0, 1)]);
    assert_eq!(find_bounds("xyz", "yq", 2, true), vec![(1, 2)]);
}

#[test]
fn fuzzy_matches_are_those_of_a_stateful_scan() {
    for text in all_texts(&['a', 'b', '\u{e9}'], 5) {
        for search in all_texts(&['a', 'b', '\u{e9}'], 3) {
            let mut search_iter = search.chars().peekable();
            let mut matches = text
                .match_indices(|c| {
                    if search_iter.peek() == Some(&c) {
                        search_iter.next();
                        return true;
                    }
                    false
                })
                .map(|m| m.0);
            let start = matches.next().unwrap_or(0);
            let end = matches.last().unwrap_or(start) + 1;
            assert_eq!(find_bounds(&text, &search, search.len(), true), vec![(start, end)]);
        }
    }
}

#[test]
fn letters_match_in_either_case() {
    assert_eq!(match_bounds("GIT Status", "gIt", false), Some(vec![(0, 3)]));
    assert_eq!(match_bounds("\u{c4}b", "\u{e4}", false), Some(vec![(0, 2)]));
    assert_eq!(match_bounds("GIT Status", "gS", true), Some(vec![(0, 5)]));
}

#[test]
fn the_width_is_that_of_the_search_as_typed() {
    // The Kelvin sign takes three bytes, its lower case one.
    assert_eq!(match_bounds("kk", "\u{212a}", false), Some(vec![(0, 3), (1, 4)]));
}

#[test]
fn a_found_command_knows_where_it_matches() {
    let mut command = Command::default();
    command.id = 7;
    command.cmd = "Ls -l; ls".to_string();
    command.cmd_tpl = "ls; ls".to_string();
    command.dir = Some("/tmp".to_string());
    command.exit_code = Some(2);
    let found = History::matched(command.clone(), "ls", false).unwrap();
    assert_eq!(found.match_bounds, vec![(0, 2), (7, 9)]);
    assert_eq!(found.id, 7);
    assert_eq!(found.cmd, "Ls -l; ls");
    assert_eq!(found.cmd_tpl, "ls; ls");
    assert_eq!(found.dir, Some("/tmp".to_string()));
    assert_eq!(found.exit_code, Some(2));
    let fuzzy = History::matched(command, "l;", true).unwrap();
    assert_eq!(fuzzy.match_bounds, vec![(0, 6)]);
    assert_eq!(match_length(&fuzzy.match_bounds), 6);
}

#[test]
fn the_length_of_a_match_is_that_of_its_first_bounds() {
    assert_eq!(match_length(&vec![(3, 8), (9, 10)]), 5);
    assert_eq!(match_length(&vec![(4, 4)]), 0);
}

#[test]
fn plain_bounds_mark_the_search_in_the_text() {
    let text = "\u{e4} ab \u{4e2d}ab\u{e4}";
    for search in ["ab", "\u{e4}", "\u{4e2d}a", "b"] {
        let found = match_bounds(text, search, false).unwrap();
        assert!(!found.is_empty());
        for (start, end) in found {
            assert_eq!(&text[start..end], search);
        }
    }
}
