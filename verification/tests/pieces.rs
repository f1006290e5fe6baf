use sodium::api::{invalid_command, ApiError, Command};
use sodium::cache::CacheError;

fn strings(items: &[&str]) -> Vec<String> {
    items.iter().map(|s| s.to_string()).collect()
}

fn invalid<T>(text: &str) -> Result<T, ApiError> {
    Err(ApiError::InvalidCommand(text.to_string()))
}

#[test]
fn arguments_are_cut_at_commas_outside_quotes_and_brackets() {
    assert_eq!(Command::split_function_args("a, b"), Ok(strings(&["a", "b"])));
    assert_eq!(Command::split_function_args("  a  ,b,  c "), Ok(strings(&["a", "b", "c"])));
    assert_eq!(Command::split_function_args("\"a, b\", c"), Ok(strings(&["\"a, b\"", "c"])));
    assert_eq!(Command::split_function_args("[a, b], c"), Ok(strings(&["[a, b]", "c"])));
    assert_eq!(Command::split_function_args("[[a, b], c], d"), Ok(strings(&["[[a, b], c]", "d"])));
    assert_eq!(Command::split_function_args("\"[\", a"), Ok(strings(&["\"[\"", "a"])));
    // An empty field counts unless it is the last.
    assert_eq!(Command::split_function_args("a,,b"), Ok(strings(&["a", "", "b"])));
    assert_eq!(Command::split_function_args(",a"), Ok(strings(&["", "a"])));
    assert_eq!(Command::split_function_args("a,"), Ok(strings(&["a"])));
    assert_eq!(Command::split_function_args("a, "), Ok(strings(&["a"])));
    assert_eq!(Command::split_function_args(","), Ok(strings(&[""])));
    assert_eq!(Command::split_function_args(""), Ok(vec![]));
    assert_eq!(Command::split_function_args("   "), Ok(vec![]));
    // A closing bracket too many keeps the commas after it from cutting.
    assert_eq!(Command::split_function_args("a], b, [c"), Ok(strings(&["a], b, [c"])));
    assert_eq!(Command::split_function_args("\"a"), invalid("Unclosed quote in arguments"));
    assert_eq!(Command::split_function_args("[a"), invalid("Unclosed bracket in arguments"));
    assert_eq!(Command::split_function_args("a]"), invalid("Unclosed bracket in arguments"));
    assert_eq!(Command::split_function_args("[\"a]"), invalid("Unclosed quote in arguments"));
}

#[test]
fn elements_are_cut_at_commas_outside_quotes() {
    assert_eq!(Command::split_array_elements("\"a\", \"b\""), Ok(strings(&["\"a\"", "\"b\""])));
    assert_eq!(Command::split_array_elements("a,,b, ,c,"), Ok(strings(&["a", "b", "c"])));
    assert_eq!(Command::split_array_elements("\"a,b\",c"), Ok(strings(&["\"a,b\"", "c"])));
    assert_eq!(Command::split_array_elements("[a,b]"), Ok(strings(&["[a", "b]"])));
    assert_eq!(Command::split_array_elements(""), Ok(vec![]));
    assert_eq!(Command::split_array_elements(" , "), Ok(vec![]));
    assert_eq!(Command::split_array_elements("a, \"b"), invalid("Unclosed quote in array"));
}

#[test]
fn tokens_lose_the_quotes_around_them() {
    assert_eq!(Command::unquote_string("\"abc\""), "abc");
    assert_eq!(Command::unquote_string("  \"abc\"  "), "abc");
    assert_eq!(Command::unquote_string("  abc  "), "abc");
    assert_eq!(Command::unquote_string("\"\""), "");
    assert_eq!(Command::unquote_string("\""), "\"");
    assert_eq!(Command::unquote_string("\"abc"), "\"abc");
    assert_eq!(Command::unquote_string("abc\""), "abc\"");
    assert_eq!(Command::unquote_string("\" a \""), " a ");
    assert_eq!(Command::unquote_string("\"a\"b\""), "a\"b");
    assert_eq!(Command::unquote_string(""), "");
}

#[test]
fn operators_are_found_outside_quotes() {
    assert_eq!(Command::find_operator("\"key\" or \"value\"", " or "), Some(5));
    assert_eq!(Command::find_operator("\"a or b\" or c", " or "), Some(8));
    assert_eq!(Command::find_operator("\"a or b\"", " or "), None);
    assert_eq!(Command::find_operator("a or b or c", " or "), Some(1));
    assert_eq!(Command::find_operator("a and b", " or "), None);
    assert_eq!(Command::find_operator("a or", " or "), None);
    assert_eq!(Command::find_operator("", " or "), None);
    // Positions count characters.
    assert_eq!(Command::find_operator("\u{e9}\u{e9} and x", " and "), Some(2));
    assert_eq!(
        Command::split_at_operator("\"key\"  or  \"value\", q", 6, " or "),
        ("\"key\"".to_string(), "\"value\", q".to_string())
    );
    assert_eq!(
        Command::split_at_operator("\u{e9}\u{e9} and x", 2, " and "),
        ("\u{e9}\u{e9}".to_string(), "x".to_string())
    );
}

#[test]
fn commas_are_found_outside_quotes() {
    assert_eq!(Command::find_comma_outside_quotes("a, b"), Some(1));
    assert_eq!(Command::find_comma_outside_quotes("\"a, b\", c"), Some(6));
    assert_eq!(Command::find_comma_outside_quotes("\"a, b\""), None);
    assert_eq!(Command::find_comma_outside_quotes("[a, b]"), Some(2));
    assert_eq!(Command::find_comma_outside_quotes(""), None);
}

#[test]
fn quoted_terms_are_read() {
    assert_eq!(Command::extract_first_quoted_term("\"key\""), Ok("key".to_string()));
    assert_eq!(Command::extract_first_quoted_term("  \"key\" rest"), Ok("key".to_string()));
    assert_eq!(Command::extract_first_quoted_term("\"\""), Ok(String::new()));
    assert_eq!(Command::extract_first_quoted_term("key"), invalid("Expected quoted term"));
    assert_eq!(Command::extract_first_quoted_term("\"key"), invalid("Expected quoted term"));
    assert_eq!(Command::extract_first_quoted_term(""), invalid("Expected quoted term"));
    assert!(Command::is_valid_search_term("key"));
    assert!(Command::is_valid_search_term("value"));
    assert!(!Command::is_valid_search_term("Key"));
    assert!(!Command::is_valid_search_term(""));
}

#[test]
fn queries_are_read() {
    assert_eq!(Command::parse_query_argument("\"a\""), Ok(strings(&["a"])));
    assert_eq!(Command::parse_query_argument("  a b  "), Ok(strings(&["a b"])));
    assert_eq!(Command::parse_query_argument("[\"a\", b]"), Ok(strings(&["a", "b"])));
    assert_eq!(Command::parse_query_argument(" [ \"a\" ] "), Ok(strings(&["a"])));
    assert_eq!(Command::parse_query_argument("["), Ok(strings(&["["])));
    assert_eq!(Command::parse_query_argument(""), invalid("Empty query not allowed"));
    assert_eq!(Command::parse_query_argument("\"\""), invalid("Empty query not allowed"));
    assert_eq!(Command::parse_query_argument("[ ]"), invalid("Empty array not allowed"));
    assert_eq!(Command::parse_query_argument("[,]"), invalid("At least one query required"));
    assert_eq!(Command::parse_query_argument("[a, \"\"]"), invalid("Empty query not allowed"));
    assert_eq!(
        Command::extract_queries_after_operator("\"value\", [a, b]"),
        Ok(strings(&["a", "b"]))
    );
    assert_eq!(
        Command::extract_queries_after_operator("\"value\" a"),
        invalid("Missing comma after search type")
    );
}

#[test]
fn search_modes_are_read() {
    assert_eq!(
        Command::parse_search_type_parts("\"key\"", "\"value\", q", "or"),
        Ok("key or value".to_string())
    );
    assert_eq!(
        Command::parse_search_type_parts("\"value\"", "\"value\", q", "and"),
        Ok("value and value".to_string())
    );
    assert_eq!(
        Command::parse_search_type_parts("\"key\"", "\"other\", q", "or"),
        invalid("Search type must be \"key\" or \"value\"")
    );
    assert_eq!(
        Command::parse_search_args("\"key\" and \"value\", [a]"),
        Ok(("key and value".to_string(), strings(&["a"])))
    );
    assert_eq!(
        Command::parse_compound_search_args("\"key\" or \"value\", a", 5, " or ", "or"),
        Ok(("key or value".to_string(), strings(&["a"])))
    );
    assert_eq!(
        Command::parse_search_args("value, \"a b\""),
        Ok(("value".to_string(), strings(&["a b"])))
    );
    // An operator inside the queries is found first.
    assert_eq!(
        Command::parse_search_args("\"key\", [a or b]"),
        invalid("Missing comma after search type")
    );
}

#[test]
fn call_arguments_are_read() {
    assert_eq!(Command::parse_function_args_single(" \"k\" "), Ok("k".to_string()));
    assert_eq!(
        Command::parse_function_args_single("  "),
        invalid("Function requires an argument")
    );
    assert_eq!(
        Command::parse_function_args("\"k\", \"v, w\"", 2),
        Ok(("k".to_string(), "v, w".to_string()))
    );
    assert_eq!(
        Command::parse_function_args("a, b, c", 3),
        Ok(("a".to_string(), "b".to_string()))
    );
    assert_eq!(
        Command::parse_function_args("", 12),
        invalid("Function requires 12 arguments")
    );
    assert_eq!(
        Command::parse_function_args("a", 2),
        invalid("Function requires 2 arguments, got 1")
    );
}

#[test]
fn the_syntax_is_told_from_the_shape() {
    assert!(Command::is_function_syntax("get(k)"));
    assert!(Command::is_function_syntax("()"));
    assert!(Command::is_function_syntax("SET k (v)"));
    assert!(!Command::is_function_syntax("get(k) "));
    assert!(!Command::is_function_syntax("get k)"));
    assert!(!Command::is_function_syntax("get(k"));
    assert!(!Command::is_function_syntax(""));
    assert_eq!(
        Command::parse_function_syntax("GeT ( \"k\" )"),
        Ok(Command::Get { key: "k".to_string() })
    );
    assert_eq!(
        Command::parse_function_syntax("(k)"),
        invalid("Unknown function: . Supported functions: set, get, delete/del, keys, search")
    );
}

#[test]
fn verbs_are_matched_as_they_are_handed_in() {
    assert_eq!(Command::call_function("get", "k"), Ok(Command::Get { key: "k".to_string() }));
    assert_eq!(
        Command::call_function("GET", "k"),
        invalid("Unknown function: GET. Supported functions: set, get, delete/del, keys, search")
    );
    assert_eq!(Command::call_legacy("GET", "k"), Ok(Command::Get { key: "k".to_string() }));
    assert_eq!(
        Command::call_legacy("get", "k"),
        invalid("Unknown command: get. Supported commands: SET, GET, DEL, KEYS")
    );
    assert_eq!(Command::call_legacy("KEYS", ""), Ok(Command::Keys));
    assert_eq!(
        Command::parse_legacy("  set  k   a    b "),
        Ok(Command::Put { key: "k".to_string(), value: "a b".to_string() })
    );
    assert_eq!(Command::parse_legacy("GET\tk"), invalid("Unknown command: GET\tK. Supported commands: SET, GET, DEL, KEYS"));
    assert_eq!(
        Command::parse_set_args("k   a    b"),
        Ok(("k".to_string(), "a b".to_string()))
    );
    assert_eq!(
        Command::parse_set_args("k \"a    b\""),
        Ok(("k".to_string(), "a    b".to_string()))
    );
    assert_eq!(Command::parse_set_args("k"), invalid("SET command requires key and value"));
    assert_eq!(Command::parse_set_args("k   "), invalid("SET command requires key and value"));
    assert_eq!(Command::parse_set_args(""), invalid("SET command requires key and value"));
}

#[test]
fn case_is_folded_beyond_ascii() {
    // U+212A, the Kelvin sign, is `k` in lower case.
    assert_eq!(Command::parse("\u{212a}EYS"), Ok(Command::Keys));
    assert_eq!(Command::parse("\u{212a}eys()"), Ok(Command::Keys));
}

#[test]
fn errors_have_their_texts() {
    assert_eq!(
        ApiError::InvalidCommand("Empty command".to_string()).message(),
        "Invalid command format: Empty command"
    );
    assert_eq!(
        ApiError::CacheError(CacheError::KeyNotFound("k".to_string())).message(),
        "Cache error: Key not found: k"
    );
    assert_eq!(invalid_command("x"), ApiError::InvalidCommand("x".to_string()));
}

#[test]
fn a_call_that_takes_no_argument_is_refused() {
    assert_eq!(
        Command::parse_function_args("a", 0),
        invalid("Function requires 0 arguments, got 1")
    );
    assert_eq!(
        Command::parse_function_args(",", 0),
        invalid("Function requires 0 arguments, got 1")
    );
    assert_eq!(Command::parse_function_args("  ", 0), invalid("Function requires 0 arguments"));
}

#[test]
fn lines_are_read_with_the_cased_forms_they_are_given() {
    let get = Ok(Command::Get { key: "k".to_string() });
    assert_eq!(Command::parse_cased("GET k", "get k", "get k", "GET"), get);
    assert_eq!(Command::parse_cased("anything k", "", "", "GET"), get);
    assert_eq!(Command::parse_cased("get(\"k\")", "get(\"k\")", "get", "GET(\"K\")"), get);
    assert_eq!(Command::parse_cased("x(\"k\")", "", "get", ""), get);
    // The line in lower case decides whether the line reads `keys`.
    assert_eq!(Command::parse_cased("GET k", "keys", "", "GET"), Ok(Command::Keys));
    assert_eq!(Command::parse_cased("KEYS", "KEYS", "KEYS", "KEYS"), Ok(Command::Keys));
    assert_eq!(
        Command::parse_cased("KEYS", "KEYS", "KEYS", "keys"),
        invalid("Unknown command: keys. Supported commands: SET, GET, DEL, KEYS")
    );
    assert_eq!(Command::parse_cased("", "keys", "get", "GET"), invalid("Empty command"));
    // The line is taken as trimmed: white space at its end is not dropped,
    // and a line that ends with it has not the shape of a call.
    assert_eq!(
        Command::parse_cased("get(k) ", "", "get", "GET"),
        invalid("GET command requires exactly one key")
    );
    assert_eq!(
        Command::parse_cased("SET k \"a b\"", "", "", "SET"),
        Ok(Command::Put { key: "k".to_string(), value: "a b".to_string() })
    );
    assert_eq!(
        Command::parse_cased("set(\"k\", \"a b\")", "", "set", ""),
        Ok(Command::Put { key: "k".to_string(), value: "a b".to_string() })
    );
}
