//! The command protocol: the commands a client may send and the parser that
//! reads them from a line of text, in the legacy and in the function-call
//! syntax.

use vstd::prelude::*;
use vstd::string::*;
use crate::cache::{CacheError, CacheErrorView};
use crate::grammar::{
    array_elements, bracket_depth, cased_command, comma_scan, command, compound_search_args,
    fields,
    fields_scan, first_quoted_term, function_arg_pair, function_args, function_call,
    function_command, has_empty, in_quotes, invalid, is_function_syntax,
    is_valid_search_term, law_cased_commands_are_well_formed, legacy_call, legacy_command,
    lemma_function_args_are_some,
    lemma_bracket_depth_bounds, well_formed,
    lemma_nonempty_push, nonempty, operator_scan, queries_after_operator, query_argument,
    search_args, search_type_parts, set_args, single_function_arg, trim_each, unquote,
    unquote_each, with_valid_key,
};
use crate::key::{check_key, key_fault, valid_key};
use crate::search::SearchType;
use crate::text::{
    decimal_string, find_char_from, has_at_index, join_from, lemma_char_scan, lemma_trim,
    push_string,
    split_words, str_eq, substring, to_chars, to_lowercase, to_uppercase, trim, trim_bounds,
    trimmed, trimmed_range, views, words,
};

verus! {

/// Why a request failed.
#[derive(Debug, Clone, PartialEq, Eq)]
pub enum ApiError {
    /// The line is not a command: the text says why.
    InvalidCommand(String),
    /// The store refused the operation.
    CacheError(CacheError),
}

/// The mathematical form of an [`ApiError`].
pub enum ApiErrorView {
    InvalidCommand(Seq<char>),
    CacheError(CacheErrorView),
}

impl View for ApiError {
    type V = ApiErrorView;

    open spec fn view(&self) -> ApiErrorView {
        match *self {
            ApiError::InvalidCommand(m) => ApiErrorView::InvalidCommand(m@),
            ApiError::CacheError(e) => ApiErrorView::CacheError(e@),
        }
    }
}

impl ApiErrorView {
    /// The text of the error.
    pub open spec fn message(self) -> Seq<char> {
        match self {
            ApiErrorView::InvalidCommand(m) => "Invalid command format: "@ + m,
            ApiErrorView::CacheError(e) => "Cache error: "@ + e.message(),
        }
    }
}

impl ApiError {
    /// The text of the error.
    pub fn message(&self) -> (m: String)
        ensures
            m@ == self@.message(),
    {
        match self {
            ApiError::InvalidCommand(text) => {
                let mut m = "Invalid command format: ".to_owned();
                m.append(text.as_str());
                m
            },
            ApiError::CacheError(e) => {
                let mut m = "Cache error: ".to_owned();
                let inner = e.message();
                m.append(inner.as_str());
                m
            },
        }
    }
}

/// One request to the store.
#[derive(Debug, Clone, PartialEq, Eq)]
pub enum Command {
    /// Stores `value` under `key`; what the verb `SET` asks for.
    Put { key: String, value: String },
    Get { key: String },
    Delete { key: String },
    Keys,
    Search { search_type: SearchType, queries: Vec<String> },
}

/// The mathematical form of a [`Command`].
pub enum CommandView {
    Put { key: Seq<char>, value: Seq<char> },
    Get { key: Seq<char> },
    Delete { key: Seq<char> },
    Keys,
    Search { search_type: SearchType, queries: Seq<Seq<char>> },
}

impl View for Command {
    type V = CommandView;

    open spec fn view(&self) -> CommandView {
        match *self {
            Command::Put { key, value } => CommandView::Put { key: key@, value: value@ },
            Command::Get { key } => CommandView::Get { key: key@ },
            Command::Delete { key } => CommandView::Delete { key: key@ },
            Command::Keys => CommandView::Keys,
            Command::Search { search_type, queries } => CommandView::Search {
                search_type,
                queries: views(queries@),
            },
        }
    }
}

/// The mathematical form of a result that holds a list of strings.
pub open spec fn strings_result(r: Result<Vec<String>, ApiError>) -> Result<
    Seq<Seq<char>>,
    ApiErrorView,
> {
    match r {
        Ok(v) => Ok(views(v@)),
        Err(e) => Err(e@),
    }
}

/// The mathematical form of a result that holds nothing.
pub open spec fn unit_result(r: Result<(), ApiError>) -> Result<(), ApiErrorView> {
    match r {
        Ok(_) => Ok(()),
        Err(e) => Err(e@),
    }
}

/// The error that refuses a command with the given text.
pub fn invalid_command(message: &str) -> (e: ApiError)
    ensures
        e@ == invalid(message@),
{
    ApiError::InvalidCommand(message.to_owned())
}

impl Command {
    /// Cuts the text between the parentheses of a call into its arguments.
    pub fn split_function_args(args_str: &str) -> (r: Result<Vec<String>, ApiError>)
        ensures
            strings_result(r) == function_args(args_str@),
    {
        let v = to_chars(args_str);
        let n = v.len();
        let mut args: Vec<String> = Vec::new();
        let mut quoted = false;
        let mut depth: i128 = 0;
        let mut start: usize = 0;
        let mut i: usize = 0;
        let ghost mut done: Seq<Seq<char>> = Seq::empty();
        while i < n
            invariant
                start <= i <= n == v.len(),
                v@ == args_str@,
                quoted == in_quotes(v@, i as int),
                depth == bracket_depth(v@, i as int),
                fields(v@, true) == done + fields_scan(v@, start as int, i as int, true),
                views(args@) == trim_each(done),
            decreases n - i,
        {
            let c = v[i];
            proof {
                lemma_bracket_depth_bounds(v@, i as int);
            }
            if c == '"' {
                quoted = !quoted;
            } else if c == '[' && !quoted {
                depth = depth + 1;
            } else if c == ']' && !quoted {
                depth = depth - 1;
            } else if c == ',' && !quoted && depth == 0 {
                let arg = trimmed_range(&v, start, i);
                proof {
                    let f = v@.subrange(start as int, i as int);
                    assert(done + (seq![f] + fields_scan(v@, i + 1, i + 1, true)) =~= done.push(f)
                        + fields_scan(v@, i + 1, i + 1, true));
                    assert(trim_each(done.push(f)) =~= trim_each(done).push(trim(f)));
                    done = done.push(f);
                }
                push_string(&mut args, arg);
                start = i + 1;
            }
            i += 1;
        }
        if quoted {
            return Err(invalid_command("Unclosed quote in arguments"));
        }
        if depth != 0 {
            return Err(invalid_command("Unclosed bracket in arguments"));
        }
        let last = trimmed_range(&v, start, n);
        proof {
            let f = v@.subrange(start as int, n as int);
            assert(fields(v@, true) =~= done.push(f));
            assert(trim_each(done.push(f)) =~= trim_each(done).push(trim(f)));
            assert(trim_each(done).push(trim(f)).drop_last() =~= trim_each(done));
        }
        if last.as_str().unicode_len() != 0 {
            push_string(&mut args, last);
        }
        Ok(args)
    }

    /// Cuts the text between the brackets of an array literal into its
    /// elements.
    pub fn split_array_elements(array_content: &str) -> (r: Result<Vec<String>, ApiError>)
        ensures
            strings_result(r) == array_elements(array_content@),
    {
        let v = to_chars(array_content);
        let n = v.len();
        let mut elements: Vec<String> = Vec::new();
        let mut quoted = false;
        let mut start: usize = 0;
        let mut i: usize = 0;
        let ghost mut done: Seq<Seq<char>> = Seq::empty();
        while i < n
            invariant
                start <= i <= n == v.len(),
                v@ == array_content@,
                quoted == in_quotes(v@, i as int),
                fields(v@, false) == done + fields_scan(v@, start as int, i as int, false),
                views(elements@) == nonempty(trim_each(done)),
            decreases n - i,
        {
            let c = v[i];
            if c == '"' {
                quoted = !quoted;
            } else if c == ',' && !quoted {
                let element = trimmed_range(&v, start, i);
                proof {
                    let f = v@.subrange(start as int, i as int);
                    assert(done + (seq![f] + fields_scan(v@, i + 1, i + 1, false)) =~= done.push(f)
                        + fields_scan(v@, i + 1, i + 1, false));
                    assert(trim_each(done.push(f)) =~= trim_each(done).push(trim(f)));
                    lemma_nonempty_push(trim_each(done), trim(f));
                    done = done.push(f);
                }
                if element.as_str().unicode_len() != 0 {
                    push_string(&mut elements, element);
                }
                start = i + 1;
            }
            i += 1;
        }
        if quoted {
            return Err(invalid_command("Unclosed quote in array"));
        }
        let last = trimmed_range(&v, start, n);
        proof {
            let f = v@.subrange(start as int, n as int);
            assert(fields(v@, false) =~= done.push(f));
            assert(trim_each(done.push(f)) =~= trim_each(done).push(trim(f)));
            lemma_nonempty_push(trim_each(done), trim(f));
        }
        if last.as_str().unicode_len() != 0 {
            push_string(&mut elements, last);
        }
        Ok(elements)
    }

    /// Strips the white space around a token and the pair of double quotes
    /// around what is left, if there is one.
    pub fn unquote_string(s: &str) -> (r: String)
        ensures
            r@ == unquote(s@),
    {
        let v = to_chars(s);
        let (a, b) = trim_bounds(&v);
        if b - a >= 2 && v[a] == '"' && v[b - 1] == '"' {
            proof {
                let t = trim(v@);
                assert(t.subrange(1, t.len() - 1) =~= v@.subrange(a + 1, b - 1));
            }
            substring(&v, a + 1, b - 1)
        } else {
            substring(&v, a, b)
        }
    }

    /// Accepts a key that meets the key invariant and refuses any other, with
    /// the text of its first fault.
    pub fn validate_key(key: &str) -> (r: Result<(), ApiError>)
        ensures
            r is Ok <==> valid_key(key@),
            unit_result(r) == match key_fault(key@) {
                Some(fault) => Err(invalid(fault.message())),
                None => Ok(()),
            },
    {
        match check_key(key) {
            Some(fault) => Err(ApiError::InvalidCommand(fault.to_message())),
            None => Ok(()),
        }
    }
}

/// The mathematical form of a result that holds a string.
pub open spec fn string_result(r: Result<String, ApiError>) -> Result<Seq<char>, ApiErrorView> {
    match r {
        Ok(s) => Ok(s@),
        Err(e) => Err(e@),
    }
}

/// The mathematical form of a result that holds two strings.
pub open spec fn pair_result(r: Result<(String, String), ApiError>) -> Result<
    (Seq<char>, Seq<char>),
    ApiErrorView,
> {
    match r {
        Ok(p) => Ok((p.0@, p.1@)),
        Err(e) => Err(e@),
    }
}

/// The mathematical form of a result that holds a mode name and queries.
pub open spec fn search_args_result(r: Result<(String, Vec<String>), ApiError>) -> Result<
    (Seq<char>, Seq<Seq<char>>),
    ApiErrorView,
> {
    match r {
        Ok(p) => Ok((p.0@, views(p.1@))),
        Err(e) => Err(e@),
    }
}

/// The mathematical form of a result that holds a command.
pub open spec fn command_result(r: Result<Command, ApiError>) -> Result<CommandView, ApiErrorView> {
    match r {
        Ok(c) => Ok(c@),
        Err(e) => Err(e@),
    }
}

/// The index that an optional position stands for.
pub open spec fn position(r: Option<usize>) -> Option<int> {
    match r {
        Some(i) => Some(i as int),
        None => None,
    }
}

impl Command {
    /// Finds where `operator` first stands in `args_str` outside quotes.
    pub fn find_operator(args_str: &str, operator: &str) -> (r: Option<usize>)
        ensures
            position(r) == crate::grammar::find_operator(args_str@, operator@),
            r matches Some(i) ==> i + operator@.len() <= args_str@.len(),
    {
        let v = to_chars(args_str);
        let op = to_chars(operator);
        let n = v.len();
        let mut quoted = false;
        let mut i: usize = 0;
        while i < n
            invariant
                i <= n == v.len(),
                v@ == args_str@,
                op@ == operator@,
                quoted == in_quotes(v@, i as int),
                operator_scan(v@, op@, 0) == operator_scan(v@, op@, i as int),
            decreases n - i,
        {
            if v[i] == '"' {
                quoted = !quoted;
            } else if !quoted && has_at_index(&v, i, &op) {
                return Some(i);
            }
            i += 1;
        }
        None
    }

    /// Cuts `args_str` at an operator that stands at `pos` and trims the two
    /// sides.
    pub fn split_at_operator(args_str: &str, pos: usize, operator: &str) -> (r: (String, String))
        requires
            pos + operator@.len() <= args_str@.len(),
        ensures
            (r.0@, r.1@) == crate::grammar::split_at_operator(
                args_str@,
                pos as int,
                operator@.len() as int,
            ),
    {
        let v = to_chars(args_str);
        let width = operator.unicode_len();
        let left = trimmed_range(&v, 0, pos);
        let right = trimmed_range(&v, pos + width, v.len());
        (left, right)
    }

    /// Reads the text between the first two double quotes of `s`.
    pub fn extract_first_quoted_term(s: &str) -> (r: Result<String, ApiError>)
        ensures
            string_result(r) == first_quoted_term(s@),
    {
        let ts = trimmed(s);
        let t = to_chars(ts.as_str());
        if t.len() > 0 && t[0] == '"' {
            let close = find_char_from(&t, '"', 1);
            if close < t.len() {
                return Ok(substring(&t, 1, close));
            }
        }
        Err(invalid_command("Expected quoted term"))
    }

    /// Finds the first comma of `s` outside quotes.
    pub fn find_comma_outside_quotes(s: &str) -> (r: Option<usize>)
        ensures
            position(r) == crate::grammar::find_comma_outside_quotes(s@),
            r matches Some(i) ==> i < s@.len(),
    {
        let v = to_chars(s);
        let n = v.len();
        let mut quoted = false;
        let mut i: usize = 0;
        while i < n
            invariant
                i <= n == v.len(),
                v@ == s@,
                quoted == in_quotes(v@, i as int),
                comma_scan(v@, 0) == comma_scan(v@, i as int),
            decreases n - i,
        {
            if v[i] == '"' {
                quoted = !quoted;
            } else if v[i] == ',' && !quoted {
                return Some(i);
            }
            i += 1;
        }
        None
    }

    /// Whether `term` is one of the two terms a search mode is made of.
    pub fn is_valid_search_term(term: &str) -> (r: bool)
        ensures
            r == is_valid_search_term(term@),
    {
        str_eq(term, "key") || str_eq(term, "value")
    }

    /// Reads the queries of a search: an array literal or one string.
    pub fn parse_query_argument(arg: &str) -> (r: Result<Vec<String>, ApiError>)
        ensures
            strings_result(r) == query_argument(arg@),
    {
        let ts = trimmed(arg);
        let t = to_chars(ts.as_str());
        let n = t.len();
        if n > 0 && t[0] == '[' && t[n - 1] == ']' {
            let content = trimmed_range(&t, 1, n - 1);
            if content.as_str().is_empty() {
                return Err(invalid_command("Empty array not allowed"));
            }
            let elements = match Command::split_array_elements(content.as_str()) {
                Ok(elements) => elements,
                Err(e) => {
                    return Err(e);
                },
            };
            let mut queries: Vec<String> = Vec::new();
            let mut i: usize = 0;
            let ghost all = unquote_each(views(elements@));
            while i < elements.len()
                invariant
                    i <= elements.len(),
                    all == unquote_each(views(elements@)),
                    query_argument(arg@) == if has_empty(all) {
                        Err::<Seq<Seq<char>>, ApiErrorView>(invalid("Empty query not allowed"@))
                    } else if all.len() == 0 {
                        Err(invalid("At least one query required"@))
                    } else {
                        Ok(all)
                    },
                    views(queries@) == all.subrange(0, i as int),
                    forall|j: int| 0 <= j < i ==> (#[trigger] all[j]).len() > 0,
                decreases elements.len() - i,
            {
                let query = Command::unquote_string(elements[i].as_str());
                if query.as_str().is_empty() {
                    assert(all[i as int].len() == 0);
                    return Err(invalid_command("Empty query not allowed"));
                }
                proof {
                    assert(all.subrange(0, i + 1) =~= all.subrange(0, i as int).push(query@));
                }
                push_string(&mut queries, query);
                i += 1;
            }
            assert(all.subrange(0, i as int) =~= all);
            if queries.len() == 0 {
                return Err(invalid_command("At least one query required"));
            }
            Ok(queries)
        } else {
            let query = Command::unquote_string(ts.as_str());
            if query.as_str().is_empty() {
                return Err(invalid_command("Empty query not allowed"));
            }
            let mut queries: Vec<String> = Vec::new();
            push_string(&mut queries, query);
            assert(views(queries@) =~= seq![unquote(trim(arg@))]);
            Ok(queries)
        }
    }
}

impl Command {
    /// Reads the queries that follow the first comma outside quotes of
    /// `right_part`.
    pub fn extract_queries_after_operator(right_part: &str) -> (r: Result<Vec<String>, ApiError>)
        ensures
            strings_result(r) == queries_after_operator(right_part@),
    {
        match Command::find_comma_outside_quotes(right_part) {
            None => Err(invalid_command("Missing comma after search type")),
            Some(comma) => {
                let v = to_chars(right_part);
                let query_part = trimmed_range(&v, comma + 1, v.len());
                Command::parse_query_argument(query_part.as_str())
            },
        }
    }

    /// Reads the two terms of a compound search mode and joins them with
    /// `operator` into a mode name.
    pub fn parse_search_type_parts(left_part: &str, right_part: &str, operator: &str) -> (r: Result<
        String,
        ApiError,
    >)
        ensures
            string_result(r) == search_type_parts(left_part@, right_part@, operator@),
    {
        let left_term = match Command::extract_first_quoted_term(left_part) {
            Ok(term) => term,
            Err(e) => {
                return Err(e);
            },
        };
        let comma = match Command::find_comma_outside_quotes(right_part) {
            Some(comma) => comma,
            None => {
                return Err(invalid_command("Missing comma after search type"));
            },
        };
        let v = to_chars(right_part);
        let right_term_part = trimmed_range(&v, 0, comma);
        let right_term = match Command::extract_first_quoted_term(right_term_part.as_str()) {
            Ok(term) => term,
            Err(e) => {
                return Err(e);
            },
        };
        if !Command::is_valid_search_term(left_term.as_str()) || !Command::is_valid_search_term(
            right_term.as_str(),
        ) {
            return Err(invalid_command("Search type must be \"key\" or \"value\""));
        }
        let mut name = left_term;
        name.append(" ");
        name.append(operator);
        name.append(" ");
        name.append(right_term.as_str());
        Ok(name)
    }

    /// Reads the arguments of a search whose mode is two terms joined by an
    /// operator: `operator` is the operator as it stands at `pos`, with a
    /// space on each side, and `word` is the operator alone.
    pub fn parse_compound_search_args(t: &str, pos: usize, operator: &str, word: &str) -> (r: Result<
        (String, Vec<String>),
        ApiError,
    >)
        requires
            pos + operator@.len() <= t@.len(),
        ensures
            search_args_result(r) == compound_search_args(t@, pos as int, operator@, word@),
    {
        let (left, right) = Command::split_at_operator(t, pos, operator);
        let search_type = match Command::parse_search_type_parts(
            left.as_str(),
            right.as_str(),
            word,
        ) {
            Ok(search_type) => search_type,
            Err(e) => {
                return Err(e);
            },
        };
        match Command::extract_queries_after_operator(right.as_str()) {
            Ok(queries) => Ok((search_type, queries)),
            Err(e) => Err(e),
        }
    }

    /// Reads the mode name and the queries of a search from the text between
    /// the parentheses of the call.
    pub fn parse_search_args(args_str: &str) -> (r: Result<(String, Vec<String>), ApiError>)
        ensures
            search_args_result(r) == search_args(args_str@),
    {
        let t = trimmed(args_str);
        if t.as_str().is_empty() {
            return Err(invalid_command("Search requires 2 arguments"));
        }
        if let Some(pos) = Command::find_operator(t.as_str(), " or ") {
            return Command::parse_compound_search_args(t.as_str(), pos, " or ", "or");
        }
        if let Some(pos) = Command::find_operator(t.as_str(), " and ") {
            return Command::parse_compound_search_args(t.as_str(), pos, " and ", "and");
        }
        let args = match Command::split_function_args(t.as_str()) {
            Ok(args) => args,
            Err(e) => {
                return Err(e);
            },
        };
        if args.len() != 2 {
            return Err(invalid_command("Search requires 2 arguments"));
        }
        let search_type = Command::unquote_string(args[0].as_str());
        if !Command::is_valid_search_term(search_type.as_str()) {
            return Err(
                invalid_command(
                    "Use search(\"key\" or \"value\", \"query\") or search(\"key\" and \"value\", \"query\") syntax",
                ),
            );
        }
        match Command::parse_query_argument(args[1].as_str()) {
            Ok(queries) => Ok((search_type, queries)),
            Err(e) => Err(e),
        }
    }

    /// Reads the one argument of a call.
    pub fn parse_function_args_single(args_str: &str) -> (r: Result<String, ApiError>)
        ensures
            string_result(r) == single_function_arg(args_str@),
    {
        let t = trimmed(args_str);
        if t.as_str().is_empty() {
            return Err(invalid_command("Function requires an argument"));
        }
        Ok(Command::unquote_string(t.as_str()))
    }

    /// Reads the first two arguments of a call that takes `expected_count`
    /// of them. A call that takes none is always refused, since text that is
    /// not empty holds an argument at least; a call that takes one has no
    /// second argument to read and is left out.
    pub fn parse_function_args(args_str: &str, expected_count: usize) -> (r: Result<
        (String, String),
        ApiError,
    >)
        requires
            expected_count != 1,
        ensures
            pair_result(r) == function_arg_pair(args_str@, expected_count as nat),
    {
        let t = trimmed(args_str);
        if t.as_str().is_empty() {
            let mut m = "Function requires ".to_owned();
            m.append(decimal_string(expected_count).as_str());
            m.append(" arguments");
            return Err(ApiError::InvalidCommand(m));
        }
        let args = match Command::split_function_args(t.as_str()) {
            Ok(args) => args,
            Err(e) => {
                return Err(e);
            },
        };
        if args.len() != expected_count {
            let mut m = "Function requires ".to_owned();
            m.append(decimal_string(expected_count).as_str());
            m.append(" arguments, got ");
            m.append(decimal_string(args.len()).as_str());
            return Err(ApiError::InvalidCommand(m));
        }
        proof {
            lemma_trim(args_str@);
            lemma_function_args_are_some(t@);
        }
        let first = Command::unquote_string(args[0].as_str());
        let second = Command::unquote_string(args[1].as_str());
        Ok((first, second))
    }

    /// Whether a line has the function-call shape: it holds a `(` and ends
    /// with `)`.
    pub fn is_function_syntax(input: &str) -> (r: bool)
        ensures
            r == is_function_syntax(input@),
    {
        let v = to_chars(input);
        let n = v.len();
        let open = find_char_from(&v, '(', 0);
        proof {
            lemma_char_scan(v@, '(', 0);
            if open < n {
                assert(v@.contains('('));
            }
        }
        open < n && v[n - 1] == ')'
    }

    /// Hands `command` out if `key` meets the key invariant.
    fn checked(key: &str, command: Command) -> (r: Result<Command, ApiError>)
        ensures
            command_result(r) == with_valid_key(key@, command@),
    {
        match Command::validate_key(key) {
            Ok(_) => Ok(command),
            Err(e) => Err(e),
        }
    }

    /// Builds the command that a call stands for, from the lower-case name
    /// of the function and the text between the parentheses.
    pub fn call_function(name: &str, args_str: &str) -> (r: Result<Command, ApiError>)
        ensures
            command_result(r) == function_call(name@, args_str@),
    {
        if str_eq(name, "set") {
            match Command::parse_function_args(args_str, 2) {
                Ok((key, value)) => {
                    let probe = key.clone();
                    Command::checked(probe.as_str(), Command::Put { key, value })
                },
                Err(e) => Err(e),
            }
        } else if str_eq(name, "get") {
            match Command::parse_function_args_single(args_str) {
                Ok(key) => {
                    let probe = key.clone();
                    Command::checked(probe.as_str(), Command::Get { key })
                },
                Err(e) => Err(e),
            }
        } else if str_eq(name, "delete") || str_eq(name, "del") {
            match Command::parse_function_args_single(args_str) {
                Ok(key) => {
                    let probe = key.clone();
                    Command::checked(probe.as_str(), Command::Delete { key })
                },
                Err(e) => Err(e),
            }
        } else if str_eq(name, "keys") {
            if !trimmed(args_str).as_str().is_empty() {
                return Err(invalid_command("keys() takes no arguments"));
            }
            Ok(Command::Keys)
        } else if str_eq(name, "search") {
            match Command::parse_search_args(args_str) {
                Ok((search_type_str, queries)) => match SearchType::parse(
                    search_type_str.as_str(),
                ) {
                    Ok(search_type) => Ok(Command::Search { search_type, queries }),
                    Err(m) => Err(ApiError::InvalidCommand(m)),
                },
                Err(e) => Err(e),
            }
        } else {
            let mut m = "Unknown function: ".to_owned();
            m.append(name);
            m.append(". Supported functions: set, get, delete/del, keys, search");
            Err(ApiError::InvalidCommand(m))
        }
    }

    /// Reads a line in function-call syntax.
    pub fn parse_function_syntax(input: &str) -> (r: Result<Command, ApiError>)
        requires
            is_function_syntax(input@),
        ensures
            command_result(r) == function_command(input@),
    {
        let v = to_chars(input);
        let open_paren = find_char_from(&v, '(', 0);
        proof {
            lemma_char_scan(v@, '(', 0);
            if open_paren == v.len() {
                let i = choose|i: int| 0 <= i < v@.len() && v@[i] == '(';
                assert(v@[i] != '(');
            }
        }
        let function_name = trimmed_range(&v, 0, open_paren);
        let args_str = substring(&v, open_paren + 1, v.len() - 1);
        let lower = to_lowercase(function_name.as_str());
        Command::call_function(lower.as_str(), args_str.as_str())
    }

    /// Reads the key and the value of a legacy `SET` from what follows the
    /// verb.
    pub fn parse_set_args(args: &str) -> (r: Result<(String, String), ApiError>)
        ensures
            pair_result(r) == set_args(args@),
    {
        let v = to_chars(args);
        let n = v.len();
        if n == 0 {
            return Err(invalid_command("SET command requires key and value"));
        }
        let space = find_char_from(&v, ' ', 0);
        if space >= n {
            return Err(invalid_command("SET command requires key and value"));
        }
        let key = substring(&v, 0, space);
        let rest_string = trimmed_range(&v, space + 1, n);
        let rest = to_chars(rest_string.as_str());
        let m = rest.len();
        if m == 0 {
            return Err(invalid_command("SET command requires key and value"));
        }
        let value = if m >= 2 && rest[0] == '"' && rest[m - 1] == '"' {
            substring(&rest, 1, m - 1)
        } else {
            let tokens = split_words(&rest);
            proof {
                assert(views(tokens@).subrange(0, tokens@.len() as int) =~= words(rest@));
            }
            join_from(&tokens, 0, " ")
        };
        Ok((key, value))
    }

    /// Builds the command that a legacy line stands for, from its verb in
    /// upper case and what follows the verb, trimmed.
    pub fn call_legacy(verb: &str, rest: &str) -> (r: Result<Command, ApiError>)
        ensures
            command_result(r) == legacy_call(verb@, rest@),
    {
        if str_eq(verb, "SET") {
            match Command::parse_set_args(rest) {
                Ok((key, value)) => {
                    let probe = key.clone();
                    Command::checked(probe.as_str(), Command::Put { key, value })
                },
                Err(e) => Err(e),
            }
        } else if str_eq(verb, "GET") {
            if rest.is_empty() {
                return Err(invalid_command("GET command requires exactly one key"));
            }
            Command::checked(rest, Command::Get { key: rest.to_owned() })
        } else if str_eq(verb, "DEL") || str_eq(verb, "DELETE") {
            if rest.is_empty() {
                return Err(invalid_command("DEL command requires exactly one key"));
            }
            Command::checked(rest, Command::Delete { key: rest.to_owned() })
        } else if str_eq(verb, "KEYS") {
            if !rest.is_empty() {
                return Err(invalid_command("KEYS command takes no arguments"));
            }
            Ok(Command::Keys)
        } else {
            let mut m = "Unknown command: ".to_owned();
            m.append(verb);
            m.append(". Supported commands: SET, GET, DEL, KEYS");
            Err(ApiError::InvalidCommand(m))
        }
    }

    /// Reads a line in legacy syntax: a verb, then its arguments after a
    /// space.
    pub fn parse_legacy(input: &str) -> (r: Result<Command, ApiError>)
        ensures
            command_result(r) == legacy_command(input@),
    {
        let t = trimmed(input);
        let v = to_chars(t.as_str());
        let n = v.len();
        if n == 0 {
            return Err(invalid_command("Empty command"));
        }
        let space = find_char_from(&v, ' ', 0);
        let verb = substring(&v, 0, space);
        let rest = if space < n {
            trimmed_range(&v, space + 1, n)
        } else {
            String::new()
        };
        let upper = to_uppercase(verb.as_str());
        Command::call_legacy(upper.as_str(), rest.as_str())
    }

    /// Reads one command from a trimmed line and its cased forms: the whole
    /// line in lower case, the name of the function that the line calls in
    /// lower case, and the verb of the line in upper case. A line that reads
    /// `keys` in lower case, or that holds a `(` and ends with `)`, is in
    /// function-call syntax; any other line is in legacy syntax. A command
    /// that is read is well formed.
    pub fn parse_cased(line: &str, lower_line: &str, lower_name: &str, upper_verb: &str) -> (r:
        Result<Command, ApiError>)
        ensures
            command_result(r) == cased_command(line@, lower_line@, lower_name@, upper_verb@),
            r matches Ok(c) ==> well_formed(c@),
    {
        proof {
            law_cased_commands_are_well_formed(line@, lower_line@, lower_name@, upper_verb@);
        }
        if line.is_empty() {
            return Err(invalid_command("Empty command"));
        }
        if str_eq(lower_line, "keys") {
            return Ok(Command::Keys);
        }
        let v = to_chars(line);
        let n = v.len();
        if Command::is_function_syntax(line) {
            let open_paren = find_char_from(&v, '(', 0);
            proof {
                lemma_char_scan(v@, '(', 0);
                if open_paren == n {
                    let i = choose|i: int| 0 <= i < v@.len() && v@[i] == '(';
                    assert(v@[i] != '(');
                }
            }
            let args_str = substring(&v, open_paren + 1, n - 1);
            Command::call_function(lower_name, args_str.as_str())
        } else {
            let space = find_char_from(&v, ' ', 0);
            let rest = if space < n {
                trimmed_range(&v, space + 1, n)
            } else {
                String::new()
            };
            Command::call_legacy(upper_verb, rest.as_str())
        }
    }

    /// Reads one command from a line of text, in either syntax. A command
    /// that is read is well formed.
    pub fn parse(input: &str) -> (r: Result<Command, ApiError>)
        ensures
            command_result(r) == command(input@),
            r matches Ok(c) ==> well_formed(c@),
    {
        let line = trimmed(input);
        let v = to_chars(line.as_str());
        let lower_line = to_lowercase(line.as_str());
        let function_name = trimmed_range(&v, 0, find_char_from(&v, '(', 0));
        let lower_name = to_lowercase(function_name.as_str());
        let verb = substring(&v, 0, find_char_from(&v, ' ', 0));
        let upper_verb = to_uppercase(verb.as_str());
        Command::parse_cased(
            line.as_str(),
            lower_line.as_str(),
            lower_name.as_str(),
            upper_verb.as_str(),
        )
    }
}

} // verus!
