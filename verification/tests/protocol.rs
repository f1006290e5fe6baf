use sodium::api::Command;
use sodium::cache::{CacheError, Sodium};
use sodium::protocol::{
    execute_command, execute_task, format_reply, handle_line, Outcome, TaskError,
};

fn reply(store: &mut Sodium, line: &str) -> String {
    let text = handle_line(store, line).expect("a reply");
    assert!(text.ends_with('\n'));
    text[..text.len() - 1].to_string()
}

fn sorted_words(text: &str) -> Vec<String> {
    let mut words: Vec<String> = text.split(' ').map(|w| w.to_string()).collect();
    words.sort();
    words
}

#[test]
fn scenario_set_get_del_get() {
    let mut store = Sodium::new();
    assert_eq!(reply(&mut store, "SET foo bar"), "OK");
    assert_eq!(reply(&mut store, "GET foo"), "bar");
    assert_eq!(reply(&mut store, "DEL foo"), "1");
    assert_eq!(reply(&mut store, "GET foo"), "NULL");
    assert_eq!(reply(&mut store, "DEL foo"), "0");
}

#[test]
fn scenario_function_syntax() {
    let mut store = Sodium::new();
    assert_eq!(reply(&mut store, "set(\"k1\", \"hello world\")"), "OK");
    assert_eq!(reply(&mut store, "get(\"k1\")"), "hello world");
    assert_eq!(reply(&mut store, "keys"), "k1");
}

#[test]
fn scenario_invalid_keys() {
    let mut store = Sodium::new();
    assert_eq!(reply(&mut store, "SET a--b x"), "ERROR: Invalid endpoint format");
    assert_eq!(reply(&mut store, "SET -ab x"), "ERROR: Invalid endpoint format");
    assert_eq!(reply(&mut store, "SET a_b ok"), "OK");
    assert_eq!(reply(&mut store, "KEYS"), "a_b");
}

#[test]
fn scenario_search_by_key() {
    let mut store = Sodium::new();
    reply(&mut store, "SET fruit_apple red");
    reply(&mut store, "SET fruit_berry blue");
    reply(&mut store, "SET vegetable green");
    let found = reply(&mut store, "search(\"key\", \"fruit\")");
    assert_eq!(sorted_words(&found), vec!["fruit_apple".to_string(), "fruit_berry".to_string()]);
}

#[test]
fn scenario_search_by_value() {
    let mut store = Sodium::new();
    reply(&mut store, "SET k1 \"the quick brown\"");
    reply(&mut store, "SET k2 \"brown fox\"");
    assert_eq!(reply(&mut store, "search(\"value\", [\"brown\", \"quick\"])"), "k1");
}

#[test]
fn scenario_search_by_key_and_value() {
    let mut store = Sodium::new();
    reply(&mut store, "SET x_key \"has x\"");
    reply(&mut store, "SET other \"x present\"");
    assert_eq!(reply(&mut store, "search(\"key\" and \"value\", \"x\")"), "x_key");
}

#[test]
fn both_syntaxes_have_the_same_effect() {
    let mut legacy = Sodium::new();
    let mut call = Sodium::new();
    let pairs = [
        ("SET k1 \"hello world\"", "set(\"k1\", \"hello world\")"),
        ("SET k2 v", "set(k2, v)"),
        ("GET k1", "get(\"k1\")"),
        ("GET nope", "get(nope)"),
        ("DEL k2", "del(\"k2\")"),
        ("DELETE k2", "delete(\"k2\")"),
        ("KEYS", "keys()"),
        ("GET -bad", "get(\"-bad\")"),
    ];
    for (old_form, new_form) in pairs {
        assert_eq!(Command::parse(old_form), Command::parse(new_form), "{}", old_form);
        assert_eq!(reply(&mut legacy, old_form), reply(&mut call, new_form), "{}", old_form);
    }
    assert_eq!(legacy.total_operations(), call.total_operations());
    assert_eq!(legacy.hit_count(), call.hit_count());
    assert_eq!(legacy.miss_count(), call.miss_count());
}

#[test]
fn blank_lines_get_no_reply() {
    let mut store = Sodium::new();
    assert_eq!(handle_line(&mut store, ""), None);
    assert_eq!(handle_line(&mut store, "  \r\n"), None);
    assert_eq!(store.total_operations(), 0);
}

#[test]
fn lines_are_trimmed_and_framed() {
    let mut store = Sodium::new();
    assert_eq!(handle_line(&mut store, "SET a 1\r\n"), Some("OK\n".to_string()));
    assert_eq!(handle_line(&mut store, "  GET a  \n"), Some("1\n".to_string()));
    assert_eq!(handle_line(&mut store, "nonsense\n"), Some("ERROR: Invalid endpoint format\n".to_string()));
    assert_eq!(handle_line(&mut store, "keys()\n"), Some("a\n".to_string()));
    assert_eq!(handle_line(&mut store, "del(a)\n"), Some("1\n".to_string()));
    assert_eq!(handle_line(&mut store, "keys\n"), Some("(empty)\n".to_string()));
    assert_eq!(
        handle_line(&mut store, "search(\"key\", \"a\")\n"),
        Some("(empty)\n".to_string())
    );
}

#[test]
fn replies_follow_the_lexicon() {
    assert_eq!(format_reply(&Ok(Outcome::Stored)), "OK");
    assert_eq!(format_reply(&Ok(Outcome::Value(Some("a b".to_string())))), "a b");
    assert_eq!(format_reply(&Ok(Outcome::Value(Some(String::new())))), "");
    assert_eq!(format_reply(&Ok(Outcome::Value(None))), "NULL");
    assert_eq!(format_reply(&Ok(Outcome::Deleted(true))), "1");
    assert_eq!(format_reply(&Ok(Outcome::Deleted(false))), "0");
    assert_eq!(format_reply(&Ok(Outcome::Keys(vec![]))), "(empty)");
    assert_eq!(format_reply(&Ok(Outcome::Keys(vec!["a".to_string()]))), "a");
    assert_eq!(
        format_reply(&Ok(Outcome::Keys(vec!["a".to_string(), "b".to_string(), "c".to_string()]))),
        "a b c"
    );
    assert_eq!(format_reply(&Err(TaskError::NotQueued)), "ERROR: Failed to queue task");
    assert_eq!(format_reply(&Err(TaskError::Abandoned)), "ERROR: Task execution failed");
    assert_eq!(
        format_reply(&Err(TaskError::Cache(CacheError::KeyNotFound("k".to_string())))),
        "ERROR: Key not found: k"
    );
}

#[test]
fn tasks_give_outcomes() {
    let mut store = Sodium::new();
    let put = Command::Put { key: "a".to_string(), value: "1".to_string() };
    assert_eq!(execute_task(&mut store, put), Ok(Outcome::Stored));
    let get = Command::Get { key: "a".to_string() };
    assert_eq!(execute_task(&mut store, get), Ok(Outcome::Value(Some("1".to_string()))));
    let miss = Command::Get { key: "b".to_string() };
    assert_eq!(execute_task(&mut store, miss), Ok(Outcome::Value(None)));
    assert_eq!(execute_task(&mut store, Command::Keys), Ok(Outcome::Keys(vec!["a".to_string()])));
    let delete = Command::Delete { key: "a".to_string() };
    assert_eq!(execute_command(&mut store, delete), "1");
    assert_eq!(execute_command(&mut store, Command::Keys), "(empty)");
}
