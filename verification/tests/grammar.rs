use sodium::api::{ApiError, Command};
use sodium::search::SearchType;

fn put(key: &str, value: &str) -> Command {
    Command::Put { key: key.to_string(), value: value.to_string() }
}

fn get(key: &str) -> Command {
    Command::Get { key: key.to_string() }
}

fn delete(key: &str) -> Command {
    Command::Delete { key: key.to_string() }
}

fn search(search_type: SearchType, queries: &[&str]) -> Command {
    Command::Search { search_type, queries: queries.iter().map(|q| q.to_string()).collect() }
}

fn refused(line: &str, message: &str) {
    assert_eq!(Command::parse(line), Err(ApiError::InvalidCommand(message.to_string())), "{}", line);
}

#[test]
fn legacy_lines_parse() {
    assert_eq!(Command::parse("SET foo bar"), Ok(put("foo", "bar")));
    assert_eq!(Command::parse("set foo bar"), Ok(put("foo", "bar")));
    assert_eq!(Command::parse("  SET foo   bar   baz  "), Ok(put("foo", "bar baz")));
    assert_eq!(Command::parse("SET foo \"bar   baz\""), Ok(put("foo", "bar   baz")));
    assert_eq!(Command::parse("SET foo \"a\" \"b\""), Ok(put("foo", "a\" \"b")));
    assert_eq!(Command::parse("SET foo \""), Ok(put("foo", "\"")));
    assert_eq!(Command::parse("GET foo"), Ok(get("foo")));
    assert_eq!(Command::parse("get   foo"), Ok(get("foo")));
    assert_eq!(Command::parse("DEL foo"), Ok(delete("foo")));
    assert_eq!(Command::parse("DELETE foo"), Ok(delete("foo")));
    assert_eq!(Command::parse("KEYS"), Ok(Command::Keys));
    assert_eq!(Command::parse("keys"), Ok(Command::Keys));
    assert_eq!(Command::parse(" KeYs \r\n"), Ok(Command::Keys));
}

#[test]
fn legacy_lines_are_refused() {
    refused("", "Empty command");
    refused("   \t ", "Empty command");
    refused("SET", "SET command requires key and value");
    refused("SET foo", "SET command requires key and value");
    refused("GET", "GET command requires exactly one key");
    refused("DEL", "DEL command requires exactly one key");
    refused("DELETE", "DEL command requires exactly one key");
    refused("KEYS now", "KEYS command takes no arguments");
    refused("GET a b", "Key cannot contain spaces");
    refused("PING", "Unknown command: PING. Supported commands: SET, GET, DEL, KEYS");
    refused("ping me", "Unknown command: PING. Supported commands: SET, GET, DEL, KEYS");
}

#[test]
fn function_lines_parse() {
    assert_eq!(Command::parse("set(\"k1\", \"hello world\")"), Ok(put("k1", "hello world")));
    assert_eq!(Command::parse("set(k1, v)"), Ok(put("k1", "v")));
    assert_eq!(Command::parse("SET (\"k1\",\"a, b\")"), Ok(put("k1", "a, b")));
    assert_eq!(Command::parse("set(k, [1, 2])"), Ok(put("k", "[1, 2]")));
    assert_eq!(Command::parse("get(\"k1\")"), Ok(get("k1")));
    assert_eq!(Command::parse("  get( k1 )  "), Ok(get("k1")));
    assert_eq!(Command::parse("delete(\"k1\")"), Ok(delete("k1")));
    assert_eq!(Command::parse("del(\"k1\")"), Ok(delete("k1")));
    assert_eq!(Command::parse("keys()"), Ok(Command::Keys));
    assert_eq!(Command::parse("keys(  )"), Ok(Command::Keys));
}

#[test]
fn function_lines_are_refused() {
    refused("keys(1)", "keys() takes no arguments");
    refused("get()", "Function requires an argument");
    refused("set()", "Function requires 2 arguments");
    refused("set(a)", "Function requires 2 arguments, got 1");
    refused("set(a, b, c)", "Function requires 2 arguments, got 3");
    refused("set(\"a, b)", "Unclosed quote in arguments");
    refused("set(a, [b)", "Unclosed bracket in arguments");
    refused("set(a, b])", "Unclosed bracket in arguments");
    refused(
        "ping(1)",
        "Unknown function: ping. Supported functions: set, get, delete/del, keys, search",
    );
    refused(
        "SET k (a)",
        "Unknown function: set k. Supported functions: set, get, delete/del, keys, search",
    );
    refused("get(\"a\", \"b\")", "Key cannot contain spaces");
    refused(
        "get(\"a\",\"b\")",
        "Key contains invalid character '\"'. Keys can only contain letters, numbers, hyphens, and underscores",
    );
}

#[test]
fn search_lines_parse() {
    assert_eq!(
        Command::parse("search(\"key\", \"fruit\")"),
        Ok(search(SearchType::Key, &["fruit"]))
    );
    assert_eq!(
        Command::parse("search(\"value\", [\"brown\", \"quick\"])"),
        Ok(search(SearchType::Value, &["brown", "quick"]))
    );
    assert_eq!(
        Command::parse("search(\"key\" and \"value\", \"x\")"),
        Ok(search(SearchType::KeyAndValue, &["x"]))
    );
    assert_eq!(
        Command::parse("search(\"key\" or \"value\", [\"a, b\", c])"),
        Ok(search(SearchType::KeyOrValue, &["a, b", "c"]))
    );
    assert_eq!(
        Command::parse("search(key, [ \"a\" , , \"b\" ,])"),
        Ok(search(SearchType::Key, &["a", "b"]))
    );
}

#[test]
fn search_lines_are_refused() {
    refused("search()", "Search requires 2 arguments");
    refused("search(\"key\")", "Search requires 2 arguments");
    refused("search(\"key\", a, b)", "Search requires 2 arguments");
    refused(
        "search(\"keys\", \"a\")",
        "Use search(\"key\" or \"value\", \"query\") or search(\"key\" and \"value\", \"query\") syntax",
    );
    refused("search(\"key\", \"\")", "Empty query not allowed");
    refused("search(\"key\", [])", "Empty array not allowed");
    refused("search(\"key\", [,])", "At least one query required");
    refused("search(\"key\", [\"a\", \"\"])", "Empty query not allowed");
    refused("search(\"key\", [\"a])", "Unclosed quote in arguments");
    refused("search(\"key\" or \"value\", [\"a])", "Unclosed quote in array");
    refused("search(\"key\" or \"value\" \"a\")", "Missing comma after search type");
    refused("search(key or \"value\", \"a\")", "Expected quoted term");
    refused("search(\"key\" or value, \"a\")", "Expected quoted term");
    refused("search(\"key\" or \"values\", \"a\")", "Search type must be \"key\" or \"value\"");
    refused(
        "search(\"value\" or \"key\", \"a\")",
        "Invalid search type: value or key. Valid types are: key, value, key or value, key and value",
    );
    refused(
        "search(\"key\" and \"key\", \"a\")",
        "Invalid search type: key and key. Valid types are: key, value, key or value, key and value",
    );
}

#[test]
fn keys_are_validated() {
    assert_eq!(Command::parse("SET a_b ok"), Ok(put("a_b", "ok")));
    assert_eq!(Command::parse("SET a-b-c_d9 ok"), Ok(put("a-b-c_d9", "ok")));
    refused("SET a--b x", "Invalid key format. '-' must be between letters or numbers");
    refused("SET a-_b x", "Invalid key format. '-' must be between letters or numbers");
    refused(
        "SET -ab x",
        "Key cannot start or end with '-'. Hyphens and underscores must be between letters or numbers",
    );
    refused(
        "SET ab_ x",
        "Key cannot start or end with '_'. Hyphens and underscores must be between letters or numbers",
    );
    refused(
        "SET a.b x",
        "Key contains invalid character '.'. Keys can only contain letters, numbers, hyphens, and underscores",
    );
    refused(
        "GET caf\u{e9}",
        "Key contains invalid character '\u{e9}'. Keys can only contain letters, numbers, hyphens, and underscores",
    );
    refused("get(\"\")", "Key cannot be empty");
    assert_eq!(Command::validate_key("a"), Ok(()));
    assert_eq!(
        Command::validate_key(""),
        Err(ApiError::InvalidCommand("Key cannot be empty".to_string()))
    );
}

#[test]
fn both_forms_of_set_agree_where_the_value_reads_as_one_argument() {
    for value in ["v", "hello world", "a, b", "[a, b]", "a]b", "", " pad ", "a\"b\"c", "(x)"] {
        let legacy = format!("SET k1 \"{}\"", value);
        let call = format!("set(\"k1\", \"{}\")", value);
        assert_eq!(Command::parse(&legacy), Ok(put("k1", value)), "{}", legacy);
        assert_eq!(Command::parse(&call), Ok(put("k1", value)), "{}", call);
    }
    // A value with one double quote, or with a comma between two of them,
    // can be stored in the legacy form alone.
    assert_eq!(Command::parse("SET k1 \"a\"b\""), Ok(put("k1", "a\"b")));
    refused("set(\"k1\", \"a\"b\")", "Unclosed quote in arguments");
    assert_eq!(Command::parse("SET k1 \"a\",\"b\""), Ok(put("k1", "a\",\"b")));
    refused("set(\"k1\", \"a\",\"b\")", "Function requires 2 arguments, got 3");
    assert_eq!(Command::parse("SET k1 \"a\"[\"b\""), Ok(put("k1", "a\"[\"b")));
    refused("set(\"k1\", \"a\"[\"b\")", "Unclosed bracket in arguments");
}
