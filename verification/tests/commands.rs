use std::collections::HashMap;

use what_was_that::cli::{execute, render_matches, run, Cli, Commands, Outcome};
use what_was_that::store::Store;
use what_was_that::util::{default_store_file, get_config_dir};

fn remember(name: &str, description: &str) -> Commands {
    Commands::Remember { name: name.to_string(), description: description.to_string() }
}

fn find(description: &str) -> Commands {
    Commands::Find { description: description.to_string() }
}

fn forget(name: &str) -> Commands {
    Commands::Forget { name: name.to_string() }
}

/// Runs one command against the file content, as one run of the program
/// does, and writes the file back where the outcome asks for it.
fn invoke(file: &mut String, command: Commands) -> Outcome {
    let outcome = run(file.as_str(), &command);
    if let Some(text) = &outcome.persist {
        *file = text.clone();
    }
    outcome
}

fn assert_success(outcome: &Outcome) {
    assert_eq!(outcome.exit_code, 0);
    assert!(outcome.stderr.is_none());
}

fn assert_failure(outcome: &Outcome, fragment: &str) {
    assert_eq!(outcome.exit_code, 1);
    assert!(outcome.stdout.is_empty());
    assert!(outcome.persist.is_none());
    assert!(outcome.stderr.as_ref().unwrap().contains(fragment));
}

fn stdout_contains(outcome: &Outcome, fragment: &str) -> bool {
    outcome.stdout.join("\n").contains(fragment)
}

const ENTRIES: [(&str, &str); 3] = [
    ("make-me-a salad", "Makes salad"),
    ("make-me-a cookie", "Makes cookie"),
    ("cat FILE", "Reads FILE and displays contents"),
];

#[test]
fn find_nonexistent_key() {
    let mut file = String::new();
    let outcome = invoke(&mut file, find("foo cli"));
    assert_failure(&outcome, "No matches found.");
}

#[test]
fn delete_non_existent_command() {
    let mut file = String::new();
    let outcome = invoke(&mut file, forget("foo"));
    assert_failure(&outcome, "foo");
    assert_failure(&outcome, "not found");
}

#[test]
fn set_entry() {
    let mut file = String::new();
    let outcome = invoke(&mut file, remember("foo", "A foo cli"));
    assert_success(&outcome);
}

#[test]
fn set_multiple_entries() {
    let mut file = String::new();
    let entries = [("foo", "A foo cli"), ("bar", "A bar cli"), ("baz", "A baz cli")];
    for (name, description) in entries.iter() {
        let outcome = invoke(&mut file, remember(name, description));
        assert_success(&outcome);
    }

    let store_contents = serde_json::from_str::<HashMap<String, String>>(&file).unwrap();

    assert_eq!(store_contents.iter().len(), 3);
}

#[test]
fn find_single_entry() {
    let mut file = String::new();
    let outcome = invoke(&mut file, remember("foo", "A foo cli"));
    assert_success(&outcome);

    let outcome = invoke(&mut file, find("foo cli"));
    assert_success(&outcome);
    assert!(stdout_contains(&outcome, "foo -> A foo cli"));
}

#[test]
fn find_multiple_entries() {
    let mut file = String::new();
    for (name, description) in ENTRIES.iter() {
        let outcome = invoke(&mut file, remember(name, description));
        assert_success(&outcome);
    }
    let outcome = invoke(&mut file, find("Makes"));
    assert_success(&outcome);
    assert!(stdout_contains(&outcome, "make-me-a salad -> Makes salad"));
    assert!(stdout_contains(&outcome, "make-me-a cookie -> Makes cookie"));
}

#[test]
fn delete_single_entry() {
    let mut file = String::new();
    let outcome = invoke(&mut file, remember("foo", "A foo cli"));
    assert_success(&outcome);

    let outcome = invoke(&mut file, forget("foo"));
    assert_success(&outcome);

    let outcome = invoke(&mut file, find("foo cli"));
    assert_failure(&outcome, "No matches found.");
}

#[test]
fn delete_multiple_entries() {
    let mut file = String::new();
    for (name, description) in ENTRIES.iter() {
        let outcome = invoke(&mut file, remember(name, description));
        assert_success(&outcome);
    }

    let outcome = invoke(&mut file, forget("make-me-a salad"));
    assert_success(&outcome);

    let outcome = invoke(&mut file, find("Makes salad"));
    assert_failure(&outcome, "No matches found.");
}

#[test]
fn find_all_entries() {
    let mut file = String::new();
    for (name, description) in ENTRIES.iter() {
        let outcome = invoke(&mut file, remember(name, description));
        assert_success(&outcome);
    }

    let outcome = invoke(&mut file, find(""));
    assert_success(&outcome);
    assert!(stdout_contains(&outcome, "make-me-a salad -> Makes salad"));
    assert!(stdout_contains(&outcome, "make-me-a cookie -> Makes cookie"));
    assert!(stdout_contains(&outcome, "cat FILE -> Reads FILE and displays contents"));
}

#[test]
fn find_in_an_empty_store_reports_no_matches() {
    let mut file = String::new();
    let outcome = invoke(&mut file, find("list files"));
    assert_eq!(outcome.exit_code, 1);
    assert!(outcome.stdout.is_empty());
    assert_eq!(outcome.stderr.unwrap(), "No matches found.");
    assert_eq!(file, "");
}

#[test]
fn find_prints_the_one_match() {
    let mut file = String::new();
    assert_success(&invoke(&mut file, remember("ls", "list files")));
    let outcome = invoke(&mut file, find("list files"));
    assert_success(&outcome);
    assert_eq!(outcome.stdout, vec!["ls -> list files".to_string()]);
}

#[test]
fn find_prints_both_matches() {
    let mut file = String::new();
    assert_success(&invoke(&mut file, remember("ls", "list files")));
    assert_success(&invoke(&mut file, remember("ls -l", "list files with longer format")));
    let outcome = invoke(&mut file, find("list files"));
    assert_success(&outcome);
    let mut lines = outcome.stdout;
    lines.sort();
    assert_eq!(
        lines,
        vec![
            "ls -> list files".to_string(),
            "ls -l -> list files with longer format".to_string(),
        ]
    );
}

#[test]
fn forgotten_entry_is_not_found() {
    let mut file = String::new();
    assert_success(&invoke(&mut file, remember("foo", "A foo cli")));
    assert_success(&invoke(&mut file, forget("foo")));
    assert_eq!(file, "{}");
    let outcome = invoke(&mut file, find("foo cli"));
    assert_eq!(outcome.exit_code, 1);
    assert!(outcome.stdout.is_empty());
    assert_eq!(outcome.stderr.unwrap(), "No matches found.");
}

#[test]
fn second_remember_replaces_the_first() {
    let mut file = String::new();
    assert_success(&invoke(&mut file, remember("foo", "A")));
    assert_success(&invoke(&mut file, remember("foo", "B")));
    assert_eq!(file, "{\"foo\":\"B\"}");
    let store = Store::new(&file).unwrap();
    assert_eq!(store.len(), 1);
    assert_eq!(store.get("foo").unwrap(), "B");
}

#[test]
fn remember_asks_for_the_file_to_be_written() {
    let outcome = run("", &remember("ls", "list files"));
    assert_eq!(outcome.exit_code, 0);
    assert!(outcome.stdout.is_empty());
    assert!(outcome.stderr.is_none());
    assert_eq!(outcome.persist.unwrap(), "{\"ls\":\"list files\"}");
}

#[test]
fn find_leaves_the_file_alone() {
    let outcome = run("{\"ls\":\"list files\"}", &find("list"));
    assert_eq!(outcome.exit_code, 0);
    assert!(outcome.persist.is_none());
    assert_eq!(outcome.stdout, vec!["ls -> list files".to_string()]);
}

#[test]
fn forget_of_an_absent_name_leaves_the_file_alone() {
    let mut file = "{\"ls\":\"list files\"}".to_string();
    let outcome = invoke(&mut file, forget("cat"));
    assert_eq!(outcome.exit_code, 1);
    assert!(outcome.persist.is_none());
    assert_eq!(outcome.stderr.unwrap(), "Application error: Key not found: cat");
    assert_eq!(file, "{\"ls\":\"list files\"}");
}

#[test]
fn forget_of_a_present_name_writes_the_rest() {
    let outcome = run("{\"ls\":\"list files\",\"cat\":\"show a file\"}", &forget("ls"));
    assert_eq!(outcome.exit_code, 0);
    assert!(outcome.stderr.is_none());
    assert_eq!(outcome.persist.unwrap(), "{\"cat\":\"show a file\"}");
}

#[test]
fn run_on_content_that_does_not_decode_fails_for_every_command() {
    for command in [remember("a", "b"), find(""), forget("a")] {
        let outcome = run("{\"a\": ", &command);
        assert_eq!(outcome.exit_code, 1);
        assert!(outcome.stdout.is_empty());
        assert!(outcome.persist.is_none());
        assert!(outcome.stderr.unwrap().starts_with("JSON error: "));
    }
}

#[test]
fn execute_changes_the_store_it_is_given() {
    let mut store = Store::new("").unwrap();
    let outcome = execute(&mut store, &remember("ls", "list files"));
    assert_eq!(outcome.exit_code, 0);
    assert_eq!(store.get("ls").unwrap(), "list files");
    let outcome = execute(&mut store, &forget("ls"));
    assert_eq!(outcome.persist.unwrap(), "{}");
    assert_eq!(store.len(), 0);
    let outcome = execute(&mut store, &forget("ls"));
    assert_eq!(outcome.exit_code, 1);
}

#[test]
fn render_matches_keeps_the_order() {
    let matches = vec![
        ["b".to_string(), "second thing".to_string()],
        ["a".to_string(), "first -> thing".to_string()],
        ["".to_string(), "".to_string()],
    ];
    assert_eq!(
        render_matches(&matches),
        vec!["b -> second thing".to_string(), "a -> first -> thing".to_string(), " -> ".to_string()]
    );
    assert!(render_matches(&Vec::new()).is_empty());
}

#[test]
fn custom_store_path_overrides_the_default() {
    let custom = Cli { store_path: Some("/tmp/mine.json".to_string()), command: find("") };
    assert_eq!(custom.store_path_or("/home/me/.config/wwt/store.json"), "/tmp/mine.json");
    let plain = Cli { store_path: None, command: find("") };
    assert_eq!(plain.store_path_or("/home/me/.config/wwt/store.json"), "/home/me/.config/wwt/store.json");
}

#[test]
fn config_dir_follows_the_platform() {
    let windows = get_config_dir("windows");
    assert_eq!(windows.variable, "APPDATA");
    assert!(windows.segments.is_empty());

    let macos = get_config_dir("macos");
    assert_eq!(macos.variable, "HOME");
    assert_eq!(macos.segments, vec!["Library".to_string(), "Application Support".to_string()]);

    let linux = get_config_dir("linux");
    assert_eq!(linux.variable, "HOME");
    assert_eq!(linux.segments, vec![".config".to_string()]);

    let other = get_config_dir("freebsd");
    assert_eq!(other.variable, "HOME");
    assert_eq!(other.segments, vec![".config".to_string()]);
}

#[test]
fn default_store_file_lies_below_the_config_dir() {
    let linux = default_store_file("linux");
    assert_eq!(linux.variable, "HOME");
    assert_eq!(
        linux.segments,
        vec![".config".to_string(), "wwt".to_string(), "store.json".to_string()]
    );
    let windows = default_store_file("windows");
    assert_eq!(windows.variable, "APPDATA");
    assert_eq!(windows.segments, vec!["wwt".to_string(), "store.json".to_string()]);
}
