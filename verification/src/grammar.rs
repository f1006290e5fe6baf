//! The command grammar as mathematics: what each piece of a command line
//! means, over sequences of characters.
//!
//! A line is cut into fields at commas. A comma inside a double-quoted
//! stretch never cuts; in an argument list a comma inside square brackets
//! does not cut either. Quotes have no escape: every `"` toggles the quoted
//! state.

use vstd::prelude::*;
use crate::api::{ApiErrorView, CommandView};
use crate::key::{key_fault, lemma_key_fault_none_iff_valid, valid_key};
use crate::search::{invalid_search_type_message, search_type_named};
use crate::text::{
    char_scan, decimal, has_at, is_whitespace, join, lemma_trim_is_idempotent,
    lemma_trim_keeps_something, lowercase, trim, uppercase, words,
};

verus! {

/// The error that refuses a command with the given text.
pub open spec fn invalid(message: Seq<char>) -> ApiErrorView {
    ApiErrorView::InvalidCommand(message)
}

/// Whether an odd number of `"` stand before index `i` of `s`: the character
/// at `i` then lies inside a quoted stretch.
pub open spec fn in_quotes(s: Seq<char>, i: int) -> bool
    decreases i,
{
    if i <= 0 {
        false
    } else {
        in_quotes(s, i - 1) != (s[i - 1] == '"')
    }
}

/// The number of `[` less the number of `]` before index `i` of `s`, counting
/// only brackets outside quoted stretches. It may be negative.
pub open spec fn bracket_depth(s: Seq<char>, i: int) -> int
    decreases i,
{
    if i <= 0 {
        0
    } else if in_quotes(s, i - 1) {
        bracket_depth(s, i - 1)
    } else if s[i - 1] == '[' {
        bracket_depth(s, i - 1) + 1
    } else if s[i - 1] == ']' {
        bracket_depth(s, i - 1) - 1
    } else {
        bracket_depth(s, i - 1)
    }
}

/// Whether the character at `i` is a comma that cuts `s`. With `nested`,
/// commas inside square brackets do not cut.
pub open spec fn cuts(s: Seq<char>, i: int, nested: bool) -> bool {
    &&& s[i] == ','
    &&& !in_quotes(s, i)
    &&& nested ==> bracket_depth(s, i) == 0
}

/// The fields of `s[start..]`, where the field that began at `start` has been
/// read up to `i` without meeting a cut.
pub open spec fn fields_scan(s: Seq<char>, start: int, i: int, nested: bool) -> Seq<Seq<char>>
    decreases s.len() - i,
{
    if i < 0 || i >= s.len() {
        seq![s.subrange(start, s.len() as int)]
    } else if cuts(s, i, nested) {
        seq![s.subrange(start, i)] + fields_scan(s, i + 1, i + 1, nested)
    } else {
        fields_scan(s, start, i + 1, nested)
    }
}

/// The stretches of `s` between its cutting commas, in order. There is always
/// at least one.
pub open spec fn fields(s: Seq<char>, nested: bool) -> Seq<Seq<char>> {
    fields_scan(s, 0, 0, nested)
}

/// Every field trimmed.
pub open spec fn trim_each(fs: Seq<Seq<char>>) -> Seq<Seq<char>> {
    fs.map_values(|f: Seq<char>| trim(f))
}

/// The fields that are not empty, in order.
pub open spec fn nonempty(fs: Seq<Seq<char>>) -> Seq<Seq<char>>
    decreases fs.len(),
{
    if fs.len() == 0 {
        seq![]
    } else if fs.last().len() == 0 {
        nonempty(fs.drop_last())
    } else {
        nonempty(fs.drop_last()).push(fs.last())
    }
}

/// `fs` without its last field when that field is empty.
pub open spec fn without_empty_last(fs: Seq<Seq<char>>) -> Seq<Seq<char>> {
    if fs.len() > 0 && fs.last().len() == 0 {
        fs.drop_last()
    } else {
        fs
    }
}

/// The arguments of a call: the fields between commas outside quotes and
/// brackets, each trimmed; an empty last field does not count. An odd number
/// of quotes or unbalanced brackets is an error.
pub open spec fn function_args(s: Seq<char>) -> Result<Seq<Seq<char>>, ApiErrorView> {
    if in_quotes(s, s.len() as int) {
        Err(invalid("Unclosed quote in arguments"@))
    } else if bracket_depth(s, s.len() as int) != 0 {
        Err(invalid("Unclosed bracket in arguments"@))
    } else {
        Ok(without_empty_last(trim_each(fields(s, true))))
    }
}

/// The elements of an array literal, given the text between its brackets:
/// the fields between commas outside quotes, each trimmed, the empty ones
/// left out. An odd number of quotes is an error.
pub open spec fn array_elements(s: Seq<char>) -> Result<Seq<Seq<char>>, ApiErrorView> {
    if in_quotes(s, s.len() as int) {
        Err(invalid("Unclosed quote in array"@))
    } else {
        Ok(nonempty(trim_each(fields(s, false))))
    }
}

/// A token without the pair of double quotes around it: `s` is trimmed, and
/// if what is left starts and ends with `"` and has two characters or more,
/// the first and the last go.
pub open spec fn unquote(s: Seq<char>) -> Seq<char> {
    let t = trim(s);
    if t.len() >= 2 && t.first() == '"' && t.last() == '"' {
        t.subrange(1, t.len() - 1)
    } else {
        t
    }
}

/// The bracket depth before index `i` lies between `-i` and `i`.
pub proof fn lemma_bracket_depth_bounds(s: Seq<char>, i: int)
    requires
        0 <= i,
    ensures
        -i <= bracket_depth(s, i) <= i,
    decreases i,
{
    if i > 0 {
        lemma_bracket_depth_bounds(s, i - 1);
    }
}

/// One more field at the end is kept exactly when it is not empty.
pub proof fn lemma_nonempty_push(fs: Seq<Seq<char>>, f: Seq<char>)
    ensures
        nonempty(fs.push(f)) == if f.len() == 0 {
            nonempty(fs)
        } else {
            nonempty(fs).push(f)
        },
{
    assert(fs.push(f).drop_last() =~= fs);
}

/// The first index at or after `i` at which `op` stands outside quotes, or
/// the length of `s` when there is none.
pub open spec fn operator_scan(s: Seq<char>, op: Seq<char>, i: int) -> int
    decreases s.len() - i,
{
    if i < 0 || i >= s.len() {
        s.len() as int
    } else if s[i] != '"' && !in_quotes(s, i) && has_at(s, i, op) {
        i
    } else {
        operator_scan(s, op, i + 1)
    }
}

/// Where `op` first stands in `s` outside quotes.
pub open spec fn find_operator(s: Seq<char>, op: Seq<char>) -> Option<int> {
    let i = operator_scan(s, op, 0);
    if i < s.len() {
        Some(i)
    } else {
        None
    }
}

/// The first index at or after `i` that holds a comma outside quotes, or the
/// length of `s` when there is none.
pub open spec fn comma_scan(s: Seq<char>, i: int) -> int
    decreases s.len() - i,
{
    if i < 0 || i >= s.len() {
        s.len() as int
    } else if cuts(s, i, false) {
        i
    } else {
        comma_scan(s, i + 1)
    }
}

/// Where the first comma outside quotes stands in `s`.
pub open spec fn find_comma_outside_quotes(s: Seq<char>) -> Option<int> {
    let i = comma_scan(s, 0);
    if i < s.len() {
        Some(i)
    } else {
        None
    }
}

/// The two sides of an operator of `width` characters that stands at `pos`,
/// each trimmed.
pub open spec fn split_at_operator(s: Seq<char>, pos: int, width: int) -> (Seq<char>, Seq<char>) {
    (trim(s.subrange(0, pos)), trim(s.subrange(pos + width, s.len() as int)))
}

/// The text between the first two double quotes of `s`, which must start
/// with one once it is trimmed.
pub open spec fn first_quoted_term(s: Seq<char>) -> Result<Seq<char>, ApiErrorView> {
    let t = trim(s);
    let close = char_scan(t, '"', 1);
    if t.len() > 0 && t[0] == '"' && close < t.len() {
        Ok(t.subrange(1, close))
    } else {
        Err(invalid("Expected quoted term"@))
    }
}

/// The two terms that a search mode is made of.
pub open spec fn is_valid_search_term(term: Seq<char>) -> bool {
    term == "key"@ || term == "value"@
}

/// Each element without the quotes around it.
pub open spec fn unquote_each(fs: Seq<Seq<char>>) -> Seq<Seq<char>> {
    fs.map_values(|f: Seq<char>| unquote(f))
}

/// Whether some string of `fs` is empty.
pub open spec fn has_empty(fs: Seq<Seq<char>>) -> bool {
    exists|i: int| 0 <= i < fs.len() && (#[trigger] fs[i]).len() == 0
}

/// The queries that the second argument of a search stands for: the
/// elements of an array literal, or one string. No query may be empty, and
/// there must be one at least.
pub open spec fn query_argument(arg: Seq<char>) -> Result<Seq<Seq<char>>, ApiErrorView> {
    let t = trim(arg);
    if t.len() > 0 && t.first() == '[' && t.last() == ']' {
        let content = trim(t.subrange(1, t.len() - 1));
        if content.len() == 0 {
            Err(invalid("Empty array not allowed"@))
        } else {
            match array_elements(content) {
                Err(e) => Err(e),
                Ok(elements) => {
                    let queries = unquote_each(elements);
                    if has_empty(queries) {
                        Err(invalid("Empty query not allowed"@))
                    } else if queries.len() == 0 {
                        Err(invalid("At least one query required"@))
                    } else {
                        Ok(queries)
                    }
                },
            }
        }
    } else if unquote(t).len() == 0 {
        Err(invalid("Empty query not allowed"@))
    } else {
        Ok(seq![unquote(t)])
    }
}

/// The mode name that two quoted terms joined by an operator stand for:
/// `left` holds the first term, `right` the second, up to its first comma
/// outside quotes.
pub open spec fn search_type_parts(left: Seq<char>, right: Seq<char>, operator: Seq<char>) -> Result<
    Seq<char>,
    ApiErrorView,
> {
    match first_quoted_term(left) {
        Err(e) => Err(e),
        Ok(left_term) => match find_comma_outside_quotes(right) {
            None => Err(invalid("Missing comma after search type"@)),
            Some(comma) => match first_quoted_term(trim(right.subrange(0, comma))) {
                Err(e) => Err(e),
                Ok(right_term) => if !is_valid_search_term(left_term) || !is_valid_search_term(
                    right_term,
                ) {
                    Err(invalid("Search type must be \"key\" or \"value\""@))
                } else {
                    Ok(left_term + " "@ + operator + " "@ + right_term)
                },
            },
        },
    }
}

/// The queries that follow the first comma outside quotes of `right`.
pub open spec fn queries_after_operator(right: Seq<char>) -> Result<Seq<Seq<char>>, ApiErrorView> {
    match find_comma_outside_quotes(right) {
        None => Err(invalid("Missing comma after search type"@)),
        Some(comma) => query_argument(trim(right.subrange(comma + 1, right.len() as int))),
    }
}

/// The arguments of a search whose mode is two terms joined by an operator:
/// `op` is the operator as it stands at `pos`, with a space on each side,
/// and `word` is the operator alone.
pub open spec fn compound_search_args(
    t: Seq<char>,
    pos: int,
    op: Seq<char>,
    word: Seq<char>,
) -> Result<(Seq<char>, Seq<Seq<char>>), ApiErrorView> {
    let (left, right) = split_at_operator(t, pos, op.len() as int);
    match search_type_parts(left, right, word) {
        Err(e) => Err(e),
        Ok(search_type) => match queries_after_operator(right) {
            Err(e) => Err(e),
            Ok(queries) => Ok((search_type, queries)),
        },
    }
}

/// The text that asks for one of the two forms of a search mode.
pub open spec fn search_usage() -> Seq<char> {
    "Use search(\"key\" or \"value\", \"query\") or search(\"key\" and \"value\", \"query\") syntax"@
}

/// The mode name and the queries of a search, given the text between the
/// parentheses of the call.
pub open spec fn search_args(args: Seq<char>) -> Result<(Seq<char>, Seq<Seq<char>>), ApiErrorView> {
    let t = trim(args);
    if t.len() == 0 {
        Err(invalid("Search requires 2 arguments"@))
    } else if find_operator(t, " or "@) is Some {
        compound_search_args(t, find_operator(t, " or "@)->0, " or "@, "or"@)
    } else if find_operator(t, " and "@) is Some {
        compound_search_args(t, find_operator(t, " and "@)->0, " and "@, "and"@)
    } else {
        match function_args(t) {
            Err(e) => Err(e),
            Ok(parts) => if parts.len() != 2 {
                Err(invalid("Search requires 2 arguments"@))
            } else if !is_valid_search_term(unquote(parts[0])) {
                Err(invalid(search_usage()))
            } else {
                match query_argument(parts[1]) {
                    Err(e) => Err(e),
                    Ok(queries) => Ok((unquote(parts[0]), queries)),
                }
            },
        }
    }
}

/// The one argument of a call, without the quotes around it.
pub open spec fn single_function_arg(args: Seq<char>) -> Result<Seq<char>, ApiErrorView> {
    let t = trim(args);
    if t.len() == 0 {
        Err(invalid("Function requires an argument"@))
    } else {
        Ok(unquote(t))
    }
}

/// The two arguments of a call that takes `expected` of them, each without
/// the quotes around it.
pub open spec fn function_arg_pair(args: Seq<char>, expected: nat) -> Result<
    (Seq<char>, Seq<char>),
    ApiErrorView,
> {
    let t = trim(args);
    if t.len() == 0 {
        Err(invalid("Function requires "@ + decimal(expected) + " arguments"@))
    } else {
        match function_args(t) {
            Err(e) => Err(e),
            Ok(parts) => if parts.len() != expected {
                Err(
                    invalid(
                        "Function requires "@ + decimal(expected) + " arguments, got "@ + decimal(
                            parts.len(),
                        ),
                    ),
                )
            } else {
                Ok((unquote(parts[0]), unquote(parts[1])))
            },
        }
    }
}

/// The command that holds `key` once the key has passed the validator.
pub open spec fn with_valid_key(key: Seq<char>, command: CommandView) -> Result<
    CommandView,
    ApiErrorView,
> {
    match key_fault(key) {
        Some(fault) => Err(invalid(fault.message())),
        None => Ok(command),
    }
}

/// A line has the function-call shape when it holds a `(` and ends with `)`.
pub open spec fn is_function_syntax(s: Seq<char>) -> bool {
    s.contains('(') && s.len() > 0 && s.last() == ')'
}

/// The text that refuses a function name.
pub open spec fn unknown_function_message(name: Seq<char>) -> Seq<char> {
    "Unknown function: "@ + name + ". Supported functions: set, get, delete/del, keys, search"@
}

/// The command that a call stands for, given the lower-case name of the
/// function and the text between the parentheses.
pub open spec fn function_call(name: Seq<char>, args: Seq<char>) -> Result<
    CommandView,
    ApiErrorView,
> {
    if name == "set"@ {
        match function_arg_pair(args, 2) {
            Err(e) => Err(e),
            Ok(pair) => with_valid_key(pair.0, CommandView::Put { key: pair.0, value: pair.1 }),
        }
    } else if name == "get"@ {
        match single_function_arg(args) {
            Err(e) => Err(e),
            Ok(key) => with_valid_key(key, CommandView::Get { key }),
        }
    } else if name == "delete"@ || name == "del"@ {
        match single_function_arg(args) {
            Err(e) => Err(e),
            Ok(key) => with_valid_key(key, CommandView::Delete { key }),
        }
    } else if name == "keys"@ {
        if trim(args).len() != 0 {
            Err(invalid("keys() takes no arguments"@))
        } else {
            Ok(CommandView::Keys)
        }
    } else if name == "search"@ {
        match search_args(args) {
            Err(e) => Err(e),
            Ok(parsed) => match search_type_named(lowercase(trim(parsed.0))) {
                None => Err(invalid(invalid_search_type_message(parsed.0))),
                Some(search_type) => Ok(CommandView::Search { search_type, queries: parsed.1 }),
            },
        }
    } else {
        Err(invalid(unknown_function_message(name)))
    }
}

/// The name of the function that a line in function-call syntax calls: what
/// stands before the first `(`, trimmed.
pub open spec fn function_name(s: Seq<char>) -> Seq<char> {
    trim(s.subrange(0, char_scan(s, '(', 0)))
}

/// The text between the first `(` of a line in function-call syntax and its
/// last character.
pub open spec fn function_body(s: Seq<char>) -> Seq<char> {
    s.subrange(char_scan(s, '(', 0) + 1, s.len() - 1)
}

/// The command that a line in function-call syntax stands for. The name of
/// the function is read without regard to case.
pub open spec fn function_command(s: Seq<char>) -> Result<CommandView, ApiErrorView> {
    function_call(lowercase(function_name(s)), function_body(s))
}

/// The text that refuses the arguments of a legacy `SET`.
pub open spec fn set_usage() -> Seq<char> {
    "SET command requires key and value"@
}

/// The value of a legacy `SET`: what stands between a pair of double quotes
/// around the whole, or else the words joined by single spaces.
pub open spec fn legacy_value(rest: Seq<char>) -> Seq<char> {
    if rest.len() >= 2 && rest.first() == '"' && rest.last() == '"' {
        rest.subrange(1, rest.len() - 1)
    } else {
        join(words(rest), " "@)
    }
}

/// The key and the value of a legacy `SET`, given what follows the verb: the
/// key ends at the first space.
pub open spec fn set_args(args: Seq<char>) -> Result<(Seq<char>, Seq<char>), ApiErrorView> {
    let space = char_scan(args, ' ', 0);
    let rest = trim(args.subrange(space + 1, args.len() as int));
    if args.len() == 0 || space >= args.len() || rest.len() == 0 {
        Err(invalid(set_usage()))
    } else {
        Ok((args.subrange(0, space), legacy_value(rest)))
    }
}

/// The text that refuses a legacy verb.
pub open spec fn unknown_command_message(verb: Seq<char>) -> Seq<char> {
    "Unknown command: "@ + verb + ". Supported commands: SET, GET, DEL, KEYS"@
}

/// The command that a legacy line stands for, given its verb in upper case
/// and what follows the verb, trimmed.
pub open spec fn legacy_call(verb: Seq<char>, rest: Seq<char>) -> Result<CommandView, ApiErrorView> {
    if verb == "SET"@ {
        match set_args(rest) {
            Err(e) => Err(e),
            Ok(pair) => with_valid_key(pair.0, CommandView::Put { key: pair.0, value: pair.1 }),
        }
    } else if verb == "GET"@ {
        if rest.len() == 0 {
            Err(invalid("GET command requires exactly one key"@))
        } else {
            with_valid_key(rest, CommandView::Get { key: rest })
        }
    } else if verb == "DEL"@ || verb == "DELETE"@ {
        if rest.len() == 0 {
            Err(invalid("DEL command requires exactly one key"@))
        } else {
            with_valid_key(rest, CommandView::Delete { key: rest })
        }
    } else if verb == "KEYS"@ {
        if rest.len() != 0 {
            Err(invalid("KEYS command takes no arguments"@))
        } else {
            Ok(CommandView::Keys)
        }
    } else {
        Err(invalid(unknown_command_message(verb)))
    }
}

/// The verb of a trimmed legacy line: what stands before its first space.
pub open spec fn legacy_verb(t: Seq<char>) -> Seq<char> {
    t.subrange(0, char_scan(t, ' ', 0))
}

/// What follows the first space of a trimmed legacy line, trimmed; empty
/// when the line holds no space.
pub open spec fn legacy_rest(t: Seq<char>) -> Seq<char> {
    let space = char_scan(t, ' ', 0);
    if space < t.len() {
        trim(t.subrange(space + 1, t.len() as int))
    } else {
        seq![]
    }
}

/// The command that a line in legacy syntax stands for. The verb is read
/// without regard to case.
pub open spec fn legacy_command(input: Seq<char>) -> Result<CommandView, ApiErrorView> {
    let t = trim(input);
    if t.len() == 0 {
        Err(invalid("Empty command"@))
    } else {
        legacy_call(uppercase(legacy_verb(t)), legacy_rest(t))
    }
}

/// The command that a trimmed line stands for, given the line in lower
/// case, the name of the function that it calls in lower case, and its verb
/// in upper case. A line that reads `keys` in lower case, or that holds a
/// `(` and ends with `)`, is in function-call syntax; any other line is in
/// legacy syntax.
pub open spec fn cased_command(
    line: Seq<char>,
    lower_line: Seq<char>,
    lower_name: Seq<char>,
    upper_verb: Seq<char>,
) -> Result<CommandView, ApiErrorView> {
    if line.len() == 0 {
        Err(invalid("Empty command"@))
    } else if lower_line == "keys"@ {
        Ok(CommandView::Keys)
    } else if is_function_syntax(line) {
        function_call(lower_name, function_body(line))
    } else {
        legacy_call(upper_verb, legacy_rest(line))
    }
}

/// The command that a line stands for: the line is trimmed and read with
/// its cased forms. The verb and the name of the function are read without
/// regard to case.
pub open spec fn command(input: Seq<char>) -> Result<CommandView, ApiErrorView> {
    let line = trim(input);
    cased_command(
        line,
        lowercase(line),
        lowercase(function_name(line)),
        uppercase(legacy_verb(line)),
    )
}

/// Whether a command meets what the grammar promises of every command it
/// reads: a key meets the key invariant, and a search has a query at least
/// and no empty query.
pub open spec fn well_formed(c: CommandView) -> bool {
    match c {
        CommandView::Put { key, .. } => valid_key(key),
        CommandView::Get { key } => valid_key(key),
        CommandView::Delete { key } => valid_key(key),
        CommandView::Keys => true,
        CommandView::Search { queries, .. } => queries.len() > 0 && !has_empty(queries),
    }
}

/// The queries that a search argument stands for are some, and none of them
/// is empty.
pub proof fn lemma_queries_are_some(arg: Seq<char>)
    ensures
        query_argument(arg) matches Ok(queries) ==> queries.len() > 0 && !has_empty(queries),
{
    let t = trim(arg);
    if !(t.len() > 0 && t.first() == '[' && t.last() == ']') && unquote(t).len() != 0 {
        let queries = seq![unquote(t)];
        assert forall|i: int| 0 <= i < queries.len() implies (#[trigger] queries[i]).len()
            != 0 by {}
    }
}

/// The arguments of a search hold queries that are some, none of them
/// empty.
pub proof fn lemma_search_queries_are_some(args: Seq<char>)
    ensures
        search_args(args) matches Ok(parsed) ==> parsed.1.len() > 0 && !has_empty(parsed.1),
{
    let t = trim(args);
    if t.len() > 0 {
        if find_operator(t, " or "@) is Some {
            let sides = split_at_operator(t, find_operator(t, " or "@)->0, " or "@.len() as int);
            if find_comma_outside_quotes(sides.1) is Some {
                let comma = find_comma_outside_quotes(sides.1)->0;
                lemma_queries_are_some(trim(sides.1.subrange(comma + 1, sides.1.len() as int)));
            }
        } else if find_operator(t, " and "@) is Some {
            let sides = split_at_operator(t, find_operator(t, " and "@)->0, " and "@.len() as int);
            if find_comma_outside_quotes(sides.1) is Some {
                let comma = find_comma_outside_quotes(sides.1)->0;
                lemma_queries_are_some(trim(sides.1.subrange(comma + 1, sides.1.len() as int)));
            }
        } else if function_args(t) is Ok {
            let parts = function_args(t)->Ok_0;
            if parts.len() == 2 {
                lemma_queries_are_some(parts[1]);
            }
        }
    }
}

/// Every command that a call stands for is well formed.
pub proof fn lemma_function_call_is_well_formed(name: Seq<char>, args: Seq<char>)
    ensures
        function_call(name, args) matches Ok(c) ==> well_formed(c),
{
    if function_arg_pair(args, 2) is Ok {
        lemma_key_fault_none_iff_valid(function_arg_pair(args, 2)->Ok_0.0);
    }
    if single_function_arg(args) is Ok {
        lemma_key_fault_none_iff_valid(single_function_arg(args)->Ok_0);
    }
    lemma_search_queries_are_some(args);
}

/// Every command that a legacy line stands for is well formed.
pub proof fn lemma_legacy_call_is_well_formed(verb: Seq<char>, rest: Seq<char>)
    ensures
        legacy_call(verb, rest) matches Ok(c) ==> well_formed(c),
{
    if set_args(rest) is Ok {
        lemma_key_fault_none_iff_valid(set_args(rest)->Ok_0.0);
    }
    lemma_key_fault_none_iff_valid(rest);
}

/// The key invariant is enforced when a line is read, whatever its cased
/// forms are: every command that a line stands for is well formed.
pub proof fn law_cased_commands_are_well_formed(
    line: Seq<char>,
    lower_line: Seq<char>,
    lower_name: Seq<char>,
    upper_verb: Seq<char>,
)
    ensures
        cased_command(line, lower_line, lower_name, upper_verb) matches Ok(c) ==> well_formed(c),
{
    lemma_function_call_is_well_formed(lower_name, function_body(line));
    lemma_legacy_call_is_well_formed(upper_verb, legacy_rest(line));
}

/// The key invariant is enforced when a line is read: every command that a
/// line stands for is well formed.
pub proof fn law_commands_are_well_formed(input: Seq<char>)
    ensures
        command(input) matches Ok(c) ==> well_formed(c),
{
    let line = trim(input);
    law_cased_commands_are_well_formed(
        line,
        lowercase(line),
        lowercase(function_name(line)),
        uppercase(legacy_verb(line)),
    );
}

/// A line in one syntax alone is read as the parser of that syntax reads
/// it: a line that does not read `keys` in lower case stands for what the
/// grammar of calls gives when it has the shape of a call, and for what the
/// legacy grammar gives otherwise.
pub proof fn law_command_is_one_of_two(input: Seq<char>)
    ensures
        command(input) == if trim(input).len() == 0 {
            Err::<CommandView, ApiErrorView>(invalid("Empty command"@))
        } else if lowercase(trim(input)) == "keys"@ {
            Ok(CommandView::Keys)
        } else if is_function_syntax(trim(input)) {
            function_command(trim(input))
        } else {
            legacy_command(trim(input))
        },
{
    lemma_trim_is_idempotent(input);
}

/// Across a stretch without a cutting comma the current field goes on.
pub proof fn lemma_no_cut(s: Seq<char>, start: int, i: int, j: int, nested: bool)
    requires
        0 <= i <= j <= s.len(),
        forall|p: int| i <= p < j ==> !cuts(s, p, nested),
    ensures
        fields_scan(s, start, i, nested) == fields_scan(s, start, j, nested),
    decreases j - i,
{
    if i < j {
        assert(!cuts(s, i, nested));
        lemma_no_cut(s, start, i + 1, j, nested);
    }
}

/// A text is cut into one field at least.
pub proof fn lemma_fields_are_some(s: Seq<char>, start: int, i: int, nested: bool)
    requires
        0 <= i <= s.len(),
    ensures
        fields_scan(s, start, i, nested).len() >= 1,
    decreases s.len() - i,
{
    if i < s.len() {
        lemma_fields_are_some(s, start, i + 1, nested);
    }
}

/// A text with a cutting comma still to come is cut into two fields at
/// least.
pub proof fn lemma_cut_makes_two(s: Seq<char>, start: int, i: int, p: int, nested: bool)
    requires
        0 <= i <= p < s.len(),
        cuts(s, p, nested),
    ensures
        fields_scan(s, start, i, nested).len() >= 2,
    decreases p - i,
{
    if cuts(s, i, nested) {
        lemma_fields_are_some(s, i + 1, i + 1, nested);
    } else {
        lemma_cut_makes_two(s, start, i + 1, p, nested);
    }
}

/// The last field of a text that does not end in a cutting comma reaches to
/// the last character of the text.
pub proof fn lemma_last_field(s: Seq<char>, start: int, i: int, nested: bool)
    requires
        0 <= start <= i <= s.len(),
        start < s.len(),
        !cuts(s, s.len() - 1, nested),
    ensures
        fields_scan(s, start, i, nested).last().len() > 0,
        fields_scan(s, start, i, nested).last().last() == s.last(),
    decreases s.len() - i,
{
    if i < s.len() {
        if cuts(s, i, nested) {
            lemma_fields_are_some(s, i + 1, i + 1, nested);
            lemma_last_field(s, i + 1, i + 1, nested);
            let rest = fields_scan(s, i + 1, i + 1, nested);
            assert((seq![s.subrange(start, i)] + rest).last() == rest.last());
        } else {
            lemma_last_field(s, start, i + 1, nested);
        }
    }
}

/// A text that is not empty and does not end in white space has an argument
/// at least.
pub proof fn lemma_function_args_are_some(s: Seq<char>)
    requires
        s.len() > 0,
        !is_whitespace(s.last()),
    ensures
        function_args(s) matches Ok(parts) ==> parts.len() >= 1,
{
    let all = fields(s, true);
    lemma_fields_are_some(s, 0, 0, true);
    if all.len() == 1 {
        if exists|p: int| 0 <= p < s.len() && cuts(s, p, true) {
            let p = choose|p: int| 0 <= p < s.len() && cuts(s, p, true);
            lemma_cut_makes_two(s, 0, 0, p, true);
        }
        lemma_no_cut(s, 0, 0, s.len() as int, true);
        assert(s.subrange(0, s.len() as int) =~= s);
        lemma_trim_keeps_something(s);
        assert(trim_each(all)[0] == trim(all[0]));
    }
}

} // verus!
