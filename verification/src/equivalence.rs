//! The two syntaxes agree: a command written in the legacy form and the
//! same command written as a call stand for the same request.

use vstd::prelude::*;
use crate::api::{ApiErrorView, CommandView};
use crate::grammar::{
    bracket_depth, cased_command, command, cuts, fields, fields_scan, function_arg_pair,
    function_args,
    function_body, function_call, function_name, in_quotes, is_function_syntax, legacy_call,
    legacy_rest, legacy_value, legacy_verb, lemma_cut_makes_two, lemma_last_field, lemma_no_cut,
    set_args, single_function_arg, trim_each, unquote, without_empty_last,
};
use crate::key::{is_key_char, lemma_key_fault_none_iff_valid, valid_key};
use crate::text::{
    char_scan, is_whitespace, lemma_char_scan, lemma_trim_drops_leading_space,
    lemma_trim_is_identity, lemma_trim_keeps_something, lowercase, trim, uppercase,
};

verus! {

/// `s` between two double quotes.
pub open spec fn quoted(s: Seq<char>) -> Seq<char> {
    seq!['"'] + s + seq!['"']
}

/// What follows the verb of a legacy `SET` that stores `value` under `key`:
/// the key, a space, and the value in quotes.
pub open spec fn legacy_set_arguments(key: Seq<char>, value: Seq<char>) -> Seq<char> {
    key + seq![' '] + quoted(value)
}

/// What stands between the parentheses of a call of `set` that stores
/// `value` under `key`: the key in quotes, a comma and a space, and the
/// value in quotes.
pub open spec fn call_set_arguments(key: Seq<char>, value: Seq<char>) -> Seq<char> {
    quoted(key) + seq![',', ' '] + quoted(value)
}

/// A string in quotes loses exactly its quotes when it is unquoted.
pub proof fn lemma_unquote_quoted(s: Seq<char>)
    ensures
        trim(quoted(s)) == quoted(s),
        unquote(quoted(s)) == s,
{
    let q = quoted(s);
    assert(q.first() == '"');
    assert(q.last() == '"');
    lemma_trim_is_identity(q);
    assert(q.subrange(1, q.len() - 1) =~= s);
}

/// A valid key is its own trimmed and its own unquoted form, and holds none
/// of the characters that the grammar gives a meaning.
pub proof fn lemma_key_is_plain(key: Seq<char>)
    requires
        valid_key(key),
    ensures
        trim(key) == key,
        unquote(key) == key,
        forall|i: int|
            0 <= i < key.len() ==> (#[trigger] key[i]) != '"' && key[i] != ',' && key[i] != ' '
                && key[i] != '[' && key[i] != ']' && key[i] != '(' && key[i] != ')',
{
    assert(is_key_char(key[0]));
    assert(is_key_char(key[key.len() - 1]));
    lemma_trim_is_identity(key);
    assert forall|i: int| 0 <= i < key.len() implies (#[trigger] key[i]) != '"' && key[i] != ','
        && key[i] != ' ' && key[i] != '[' && key[i] != ']' && key[i] != '(' && key[i] != ')' by {
        assert(is_key_char(key[i]));
    }
}

/// Across a stretch without double quotes the quoted state does not change.
pub proof fn lemma_in_quotes_is_stable(s: Seq<char>, a: int, b: int)
    requires
        0 <= a <= b <= s.len(),
        forall|j: int| a <= j < b ==> #[trigger] s[j] != '"',
    ensures
        in_quotes(s, b) == in_quotes(s, a),
    decreases b - a,
{
    if a < b {
        lemma_in_quotes_is_stable(s, a, b - 1);
    }
}

/// Where every bracket stands inside quotes, the bracket depth is zero.
pub proof fn lemma_depth_is_zero(s: Seq<char>, i: int)
    requires
        0 <= i <= s.len(),
        forall|j: int| 0 <= j < i ==> in_quotes(s, j) || ((#[trigger] s[j]) != '[' && s[j] != ']'),
    ensures
        bracket_depth(s, i) == 0,
    decreases i,
{
    if i > 0 {
        lemma_depth_is_zero(s, i - 1);
        assert(in_quotes(s, i - 1) || (s[i - 1] != '[' && s[i - 1] != ']'));
    }
}

/// Whether `value` reads as one argument of a call: in the arguments
/// `"key", "value"` the quotes pair up, the brackets outside quotes pair up,
/// and no comma of the value cuts.
pub open spec fn reads_as_one_argument(key: Seq<char>, value: Seq<char>) -> bool {
    let s = call_set_arguments(key, value);
    &&& !in_quotes(s, s.len() as int)
    &&& bracket_depth(s, s.len() as int) == 0
    &&& forall|p: int| key.len() + 3 <= p < s.len() ==> !cuts(s, p, true)
}

/// How the arguments `"key", "value"` of a call begin: the key stands in
/// quotes, the comma after it cuts, and what follows the comma is a space
/// and the value in quotes.
pub proof fn lemma_call_text(key: Seq<char>, value: Seq<char>)
    requires
        valid_key(key),
    ensures
        ({
            let s = call_set_arguments(key, value);
            let n = key.len() as int;
            &&& s.len() == n + value.len() + 6
            &&& s.last() == '"'
            &&& trim(s) == s
            &&& cuts(s, n + 2, true)
            &&& s.subrange(n + 3, s.len() as int) == seq![' '] + quoted(value)
            &&& fields(s, true) == seq![quoted(key)] + fields_scan(s, n + 3, n + 3, true)
        }),
{
    let s = call_set_arguments(key, value);
    let n = key.len() as int;
    let len = n + value.len() + 6;
    lemma_key_is_plain(key);
    assert(s.len() == len);
    assert(s[0] == '"');
    assert(s[n + 1] == '"');
    assert(s[n + 2] == ',');
    assert(s[n + 3] == ' ');
    assert(s[n + 4] == '"');
    assert(s[len - 1] == '"');
    assert forall|j: int| 1 <= j < n + 1 implies #[trigger] s[j] == key[j - 1] by {}
    // The quoted state along the key.
    assert(!in_quotes(s, 0));
    assert(in_quotes(s, 1));
    assert forall|j: int| 1 <= j <= n + 1 implies in_quotes(s, j) by {
        assert forall|p: int| 1 <= p < j implies #[trigger] s[p] != '"' by {
            assert(s[p] == key[p - 1]);
        }
        lemma_in_quotes_is_stable(s, 1, j);
    }
    assert(in_quotes(s, n + 1));
    assert(!in_quotes(s, n + 2));
    // No bracket stands before the value.
    assert forall|i: int| 0 <= i <= n + 2 implies bracket_depth(s, i) == 0 by {
        assert forall|j: int| 0 <= j < i implies in_quotes(s, j) || ((#[trigger] s[j]) != '['
            && s[j] != ']') by {
            if 1 <= j <= n + 1 {
                assert(in_quotes(s, j));
            }
        }
        lemma_depth_is_zero(s, i);
    }
    assert(cuts(s, n + 2, true));
    assert forall|p: int| 0 <= p < n + 2 implies !cuts(s, p, true) by {
        if 1 <= p <= n + 1 {
            assert(in_quotes(s, p));
        }
    }
    lemma_no_cut(s, 0, 0, n + 2, true);
    assert(s.subrange(0, n + 2) =~= quoted(key));
    assert(s.subrange(n + 3, len) =~= seq![' '] + quoted(value));
    assert(s.first() == '"');
    assert(s.last() == '"');
    lemma_trim_is_identity(s);
}

/// The arguments `"key", "value"` of a call are the key and the value when
/// the value reads as one argument.
pub proof fn lemma_call_set_arguments(key: Seq<char>, value: Seq<char>)
    requires
        valid_key(key),
        reads_as_one_argument(key, value),
    ensures
        function_arg_pair(call_set_arguments(key, value), 2) == Ok::<
            (Seq<char>, Seq<char>),
            ApiErrorView,
        >((key, value)),
{
    let s = call_set_arguments(key, value);
    let n = key.len() as int;
    let len = s.len() as int;
    lemma_call_text(key, value);
    lemma_no_cut(s, n + 3, n + 3, len, true);
    let second = s.subrange(n + 3, len);
    assert(fields_scan(s, n + 3, len, true) == seq![second]);
    assert(fields(s, true) =~= seq![quoted(key), second]);
    lemma_unquote_quoted(key);
    lemma_unquote_quoted(value);
    assert(quoted(value).first() == '"');
    assert(quoted(value).last() == '"');
    lemma_trim_drops_leading_space(quoted(value));
    let parts = trim_each(fields(s, true));
    assert(parts =~= seq![quoted(key), quoted(value)]);
    assert(without_empty_last(parts) == parts);
    assert(function_args(s) == Ok::<Seq<Seq<char>>, ApiErrorView>(parts));
}

/// The arguments `"key", "value"` of a call are refused when the value does
/// not read as one argument.
pub proof fn lemma_call_set_arguments_refused(key: Seq<char>, value: Seq<char>)
    requires
        valid_key(key),
        !reads_as_one_argument(key, value),
    ensures
        function_arg_pair(call_set_arguments(key, value), 2) is Err,
{
    let s = call_set_arguments(key, value);
    let n = key.len() as int;
    let len = s.len() as int;
    lemma_call_text(key, value);
    if !in_quotes(s, len) && bracket_depth(s, len) == 0 {
        let p = choose|p: int| n + 3 <= p < len && cuts(s, p, true);
        lemma_cut_makes_two(s, n + 3, n + 3, p, true);
        assert(!cuts(s, len - 1, true));
        lemma_last_field(s, n + 3, n + 3, true);
        let rest = fields_scan(s, n + 3, n + 3, true);
        let all = fields(s, true);
        assert(all.len() >= 3);
        assert(all.last() == rest.last());
        assert(!is_whitespace(all.last().last()));
        lemma_trim_keeps_something(all.last());
        let parts = trim_each(all);
        assert(parts.len() == all.len());
        assert(parts.last() == trim(all.last()));
        assert(without_empty_last(parts) == parts);
    }
}

/// A value without double quotes reads as one argument.
pub proof fn lemma_plain_value_reads_as_one_argument(key: Seq<char>, value: Seq<char>)
    requires
        valid_key(key),
        !value.contains('"'),
    ensures
        reads_as_one_argument(key, value),
{
    let s = call_set_arguments(key, value);
    let n = key.len() as int;
    let len = n + value.len() + 6;
    lemma_key_is_plain(key);
    assert(s.len() == len);
    assert(s[0] == '"');
    assert(s[n + 1] == '"');
    assert(s[n + 2] == ',');
    assert(s[n + 3] == ' ');
    assert(s[n + 4] == '"');
    assert(s[len - 1] == '"');
    assert forall|j: int| 1 <= j < n + 1 implies #[trigger] s[j] == key[j - 1] by {}
    assert forall|j: int| n + 5 <= j < len - 1 implies #[trigger] s[j] != '"' by {
        assert(s[j] == value[j - n - 5]);
        assert(value.contains(value[j - n - 5]));
    }
    // The quoted state along the text.
    assert(!in_quotes(s, 0));
    assert(in_quotes(s, 1));
    assert forall|j: int| 1 <= j <= n + 1 implies in_quotes(s, j) by {
        assert forall|p: int| 1 <= p < j implies #[trigger] s[p] != '"' by {
            assert(s[p] == key[p - 1]);
        }
        lemma_in_quotes_is_stable(s, 1, j);
    }
    assert(in_quotes(s, n + 1));
    assert(!in_quotes(s, n + 2));
    assert(!in_quotes(s, n + 3));
    assert(!in_quotes(s, n + 4));
    assert(in_quotes(s, n + 5));
    assert forall|j: int| n + 5 <= j <= len - 1 implies in_quotes(s, j) by {
        lemma_in_quotes_is_stable(s, n + 5, j);
    }
    assert(in_quotes(s, len - 1));
    assert(!in_quotes(s, len));
    // No bracket counts, so the depth is zero everywhere.
    assert forall|i: int| 0 <= i <= len implies bracket_depth(s, i) == 0 by {
        assert forall|j: int| 0 <= j < i implies in_quotes(s, j) || ((#[trigger] s[j]) != '['
            && s[j] != ']') by {
            if 1 <= j <= n + 1 || n + 5 <= j <= len - 1 {
                assert(in_quotes(s, j));
            }
        }
        lemma_depth_is_zero(s, i);
    }
    assert forall|p: int| n + 3 <= p < len implies !cuts(s, p, true) by {
        if n + 5 <= p <= len - 1 {
            assert(in_quotes(s, p));
        }
    }
}

/// The arguments of a legacy `SET` with a quoted value are the key and the
/// value.
pub proof fn lemma_legacy_set_arguments(key: Seq<char>, value: Seq<char>)
    requires
        valid_key(key),
    ensures
        set_args(legacy_set_arguments(key, value)) == Ok::<(Seq<char>, Seq<char>), ApiErrorView>(
            (key, value),
        ),
{
    let s = legacy_set_arguments(key, value);
    let n = key.len() as int;
    lemma_key_is_plain(key);
    assert(s[n] == ' ');
    assert forall|j: int| 0 <= j < n implies #[trigger] s[j] != ' ' by {
        assert(s[j] == key[j]);
    }
    lemma_char_scan(s, ' ', 0);
    let space = char_scan(s, ' ', 0);
    assert(space == n) by {
        if space < n {
            assert(s[space] != ' ');
        }
        if space > n {
            assert(s[n] != ' ');
        }
    }
    assert(s.subrange(0, n) =~= key);
    assert(s.subrange(n + 1, s.len() as int) =~= quoted(value));
    lemma_unquote_quoted(value);
    let rest = quoted(value);
    assert(rest.first() == '"');
    assert(rest.last() == '"');
    assert(rest.subrange(1, rest.len() - 1) =~= value);
    assert(legacy_value(rest) == value);
}

/// The two forms of `SET` stand for the same request where both exist. For
/// a valid key, the legacy arguments `key "value"` always give the command
/// that stores the value under the key; the call arguments `"key", "value"`
/// give the same command exactly when the value reads as one argument, and
/// are refused otherwise.
pub proof fn law_set_forms_agree(key: Seq<char>, value: Seq<char>)
    requires
        valid_key(key),
    ensures
        legacy_call("SET"@, legacy_set_arguments(key, value)) == Ok::<CommandView, ApiErrorView>(
            CommandView::Put { key, value },
        ),
        reads_as_one_argument(key, value) ==> function_call(
            "set"@,
            call_set_arguments(key, value),
        ) == Ok::<CommandView, ApiErrorView>(CommandView::Put { key, value }),
        !reads_as_one_argument(key, value) ==> function_call(
            "set"@,
            call_set_arguments(key, value),
        ) is Err,
        !value.contains('"') ==> reads_as_one_argument(key, value),
{
    lemma_legacy_set_arguments(key, value);
    lemma_key_fault_none_iff_valid(key);
    if reads_as_one_argument(key, value) {
        lemma_call_set_arguments(key, value);
    } else {
        lemma_call_set_arguments_refused(key, value);
    }
    if !value.contains('"') {
        lemma_plain_value_reads_as_one_argument(key, value);
    }
}

/// The two forms of `GET` stand for the same request: for a valid key, the
/// legacy argument `key` and the call arguments `"key"` and `key` all give
/// the command that reads the key.
pub proof fn law_get_forms_agree(key: Seq<char>)
    requires
        valid_key(key),
    ensures
        legacy_call("GET"@, key) == Ok::<CommandView, ApiErrorView>(CommandView::Get { key }),
        function_call("get"@, quoted(key)) == Ok::<CommandView, ApiErrorView>(
            CommandView::Get { key },
        ),
        function_call("get"@, key) == Ok::<CommandView, ApiErrorView>(CommandView::Get { key }),
{
    reveal_strlit("GET");
    reveal_strlit("SET");
    reveal_strlit("get");
    reveal_strlit("set");
    assert("GET"@ != "SET"@) by {
        assert("GET"@[0] != "SET"@[0]);
    }
    assert("get"@ != "set"@) by {
        assert("get"@[0] != "set"@[0]);
    }
    lemma_key_is_plain(key);
    lemma_unquote_quoted(key);
    lemma_key_fault_none_iff_valid(key);
    assert(single_function_arg(quoted(key)) == Ok::<Seq<char>, ApiErrorView>(key));
    assert(single_function_arg(key) == Ok::<Seq<char>, ApiErrorView>(key));
}

/// The two forms of `DEL` stand for the same request: for a valid key, the
/// legacy argument `key` under either verb and the call arguments `"key"`
/// under either name all give the command that deletes the key.
pub proof fn law_delete_forms_agree(key: Seq<char>)
    requires
        valid_key(key),
    ensures
        legacy_call("DEL"@, key) == Ok::<CommandView, ApiErrorView>(CommandView::Delete { key }),
        legacy_call("DELETE"@, key) == Ok::<CommandView, ApiErrorView>(
            CommandView::Delete { key },
        ),
        function_call("del"@, quoted(key)) == Ok::<CommandView, ApiErrorView>(
            CommandView::Delete { key },
        ),
        function_call("delete"@, quoted(key)) == Ok::<CommandView, ApiErrorView>(
            CommandView::Delete { key },
        ),
{
    reveal_strlit("GET");
    reveal_strlit("SET");
    reveal_strlit("DEL");
    reveal_strlit("DELETE");
    reveal_strlit("get");
    reveal_strlit("set");
    reveal_strlit("del");
    reveal_strlit("delete");
    assert("DEL"@[0] != "SET"@[0]);
    assert("DEL"@[0] != "GET"@[0]);
    assert("DELETE"@[0] != "SET"@[0]);
    assert("DELETE"@[0] != "GET"@[0]);
    assert("del"@[0] != "set"@[0]);
    assert("del"@[0] != "get"@[0]);
    assert("delete"@[0] != "set"@[0]);
    assert("delete"@[0] != "get"@[0]);
    lemma_key_is_plain(key);
    lemma_unquote_quoted(key);
    lemma_key_fault_none_iff_valid(key);
    assert(single_function_arg(quoted(key)) == Ok::<Seq<char>, ApiErrorView>(key));
}

/// The two forms of `KEYS` stand for the same request.
pub proof fn law_keys_forms_agree()
    ensures
        legacy_call("KEYS"@, Seq::empty()) == Ok::<CommandView, ApiErrorView>(CommandView::Keys),
        function_call("keys"@, Seq::empty()) == Ok::<CommandView, ApiErrorView>(
            CommandView::Keys,
        ),
{
    reveal_strlit("GET");
    reveal_strlit("SET");
    reveal_strlit("DEL");
    reveal_strlit("DELETE");
    reveal_strlit("KEYS");
    reveal_strlit("get");
    reveal_strlit("set");
    reveal_strlit("del");
    reveal_strlit("delete");
    reveal_strlit("keys");
    assert("KEYS"@[0] != "SET"@[0]);
    assert("KEYS"@[0] != "GET"@[0]);
    assert("KEYS"@[0] != "DEL"@[0]);
    assert("KEYS"@[0] != "DELETE"@[0]);
    assert("keys"@[0] != "set"@[0]);
    assert("keys"@[0] != "get"@[0]);
    assert("keys"@[0] != "del"@[0]);
    assert("keys"@[0] != "delete"@[0]);
    let nothing = Seq::<char>::empty();
    assert(trim(nothing) =~= nothing);
}

/// Whether `word` can stand as the verb of a line: it is not empty and holds
/// neither white space nor a parenthesis.
pub open spec fn is_verb(word: Seq<char>) -> bool {
    &&& word.len() > 0
    &&& forall|i: int|
        0 <= i < word.len() ==> !is_whitespace(#[trigger] word[i]) && word[i] != '(' && word[i]
            != ')'
}

/// A legacy line: a verb, a space, and what follows the verb.
pub open spec fn legacy_line(verb: Seq<char>, rest: Seq<char>) -> Seq<char> {
    verb + seq![' '] + rest
}

/// A line in function-call syntax: a name and the arguments in parentheses.
pub open spec fn call_line(name: Seq<char>, args: Seq<char>) -> Seq<char> {
    name + seq!['('] + args + seq![')']
}

/// Whether `rest` can follow the verb of a legacy line as it is: it is not
/// empty, neither starts nor ends with white space, and does not end with
/// `)`.
pub open spec fn is_legacy_rest(rest: Seq<char>) -> bool {
    &&& rest.len() > 0
    &&& !is_whitespace(rest.first())
    &&& !is_whitespace(rest.last())
    &&& rest.last() != ')'
}

/// The parts of a legacy line: trimming changes nothing, the line has not
/// the shape of a call, its verb is what stands before the space and its
/// arguments are what stands after.
pub proof fn lemma_legacy_line_parts(verb: Seq<char>, rest: Seq<char>)
    requires
        is_verb(verb),
        is_legacy_rest(rest),
    ensures
        trim(legacy_line(verb, rest)) == legacy_line(verb, rest),
        legacy_line(verb, rest).len() > 0,
        !is_function_syntax(legacy_line(verb, rest)),
        legacy_verb(legacy_line(verb, rest)) == verb,
        legacy_rest(legacy_line(verb, rest)) == rest,
{
    let line = legacy_line(verb, rest);
    let n = verb.len() as int;
    assert(line.first() == verb[0]);
    assert(line.last() == rest.last());
    lemma_trim_is_identity(line);
    assert(!is_function_syntax(line));
    assert(line[n] == ' ');
    assert forall|j: int| 0 <= j < n implies #[trigger] line[j] != ' ' by {
        assert(line[j] == verb[j]);
    }
    lemma_char_scan(line, ' ', 0);
    let space = char_scan(line, ' ', 0);
    assert(space == n) by {
        if space < n {
            assert(line[space] != ' ');
        }
    }
    assert(line.subrange(0, n) =~= verb);
    assert(line.subrange(n + 1, line.len() as int) =~= rest);
    lemma_trim_is_identity(rest);
}

/// The parts of a verb that stands alone on a legacy line: trimming changes
/// nothing, the line has not the shape of a call, its verb is the whole
/// line and nothing follows.
pub proof fn lemma_lone_verb_parts(verb: Seq<char>)
    requires
        is_verb(verb),
    ensures
        trim(verb) == verb,
        !is_function_syntax(verb),
        legacy_verb(verb) == verb,
        legacy_rest(verb) == Seq::<char>::empty(),
{
    assert(!is_whitespace(verb[0]));
    assert(!is_whitespace(verb[verb.len() - 1]));
    lemma_trim_is_identity(verb);
    assert(verb[verb.len() - 1] != ')');
    lemma_char_scan(verb, ' ', 0);
    let space = char_scan(verb, ' ', 0);
    if space < verb.len() {
        assert(is_whitespace(verb[space]));
    }
    assert(verb.subrange(0, verb.len() as int) =~= verb);
}

/// The parts of a line in function-call syntax: trimming changes nothing,
/// the line has the shape of a call, the name of its function is what
/// stands before the parentheses and its arguments are what stands between
/// them.
pub proof fn lemma_call_line_parts(name: Seq<char>, args: Seq<char>)
    requires
        is_verb(name),
    ensures
        trim(call_line(name, args)) == call_line(name, args),
        call_line(name, args).len() > 0,
        is_function_syntax(call_line(name, args)),
        function_name(call_line(name, args)) == name,
        function_body(call_line(name, args)) == args,
{
    let line = call_line(name, args);
    let n = name.len() as int;
    assert(line.first() == name[0]);
    assert(line.last() == ')');
    lemma_trim_is_identity(line);
    assert(line[n] == '(');
    assert(line.contains('('));
    assert forall|j: int| 0 <= j < n implies #[trigger] line[j] != '(' by {
        assert(line[j] == name[j]);
    }
    lemma_char_scan(line, '(', 0);
    let open = char_scan(line, '(', 0);
    assert(open == n) by {
        if open < n {
            assert(line[open] != '(');
        }
    }
    assert(line.subrange(0, n) =~= name);
    assert(name.last() == name[n - 1]);
    lemma_trim_is_identity(name);
    assert(line.subrange(n + 1, line.len() - 1) =~= args);
}

/// How a legacy line is read: a verb, a space, and arguments that can
/// follow as they are, are handed to the legacy grammar, the verb in upper
/// case with the arguments as they are. Only a line that reads `keys` once
/// it is in lower case is read as that.
pub proof fn law_legacy_line(verb: Seq<char>, rest: Seq<char>)
    requires
        is_verb(verb),
        is_legacy_rest(rest),
    ensures
        command(legacy_line(verb, rest)) == if lowercase(legacy_line(verb, rest)) == "keys"@ {
            Ok::<CommandView, ApiErrorView>(CommandView::Keys)
        } else {
            legacy_call(uppercase(verb), rest)
        },
{
    lemma_legacy_line_parts(verb, rest);
}

/// How a line in function-call syntax is read: a name, `(`, arguments and
/// `)` are handed to the grammar of calls, the name in lower case with the
/// arguments as they are. Only a line that reads `keys` once it is in lower
/// case is read as that.
pub proof fn law_call_line(name: Seq<char>, args: Seq<char>)
    requires
        is_verb(name),
    ensures
        command(call_line(name, args)) == if lowercase(call_line(name, args)) == "keys"@ {
            Ok::<CommandView, ApiErrorView>(CommandView::Keys)
        } else {
            function_call(lowercase(name), args)
        },
{
    lemma_call_line_parts(name, args);
}

/// The two forms of a `GET` line stand for the same request. Take a valid
/// key, and a legacy line and a call whose lower-case forms do not read
/// `keys`: the legacy line whose verb is `GET` in upper case and the call
/// whose name is `get` in lower case both give the command that reads the
/// key, whatever the other cased forms are.
pub proof fn law_get_lines_agree(
    key: Seq<char>,
    verb: Seq<char>,
    name: Seq<char>,
    lower_legacy: Seq<char>,
    lower_call: Seq<char>,
    other_name: Seq<char>,
    other_verb: Seq<char>,
)
    requires
        valid_key(key),
        is_verb(verb),
        is_verb(name),
        lower_legacy != "keys"@,
        lower_call != "keys"@,
    ensures
        cased_command(legacy_line(verb, key), lower_legacy, other_name, "GET"@) == Ok::<
            CommandView,
            ApiErrorView,
        >(CommandView::Get { key }),
        cased_command(call_line(name, quoted(key)), lower_call, "get"@, other_verb) == Ok::<
            CommandView,
            ApiErrorView,
        >(CommandView::Get { key }),
{
    lemma_key_is_plain(key);
    assert(is_key_char(key[0]));
    assert(is_key_char(key[key.len() - 1]));
    assert(key.last() != ')');
    lemma_legacy_line_parts(verb, key);
    lemma_call_line_parts(name, quoted(key));
    law_get_forms_agree(key);
}

/// The two forms of a `DEL` line stand for the same request. Take a valid
/// key, and a legacy line and a call whose lower-case forms do not read
/// `keys`: the legacy line whose verb is `DEL` or `DELETE` in upper case
/// and the call whose name is `del` or `delete` in lower case all give the
/// command that deletes the key, whatever the other cased forms are.
pub proof fn law_delete_lines_agree(
    key: Seq<char>,
    verb: Seq<char>,
    name: Seq<char>,
    lower_legacy: Seq<char>,
    lower_call: Seq<char>,
    other_name: Seq<char>,
    other_verb: Seq<char>,
)
    requires
        valid_key(key),
        is_verb(verb),
        is_verb(name),
        lower_legacy != "keys"@,
        lower_call != "keys"@,
    ensures
        cased_command(legacy_line(verb, key), lower_legacy, other_name, "DEL"@) == Ok::<
            CommandView,
            ApiErrorView,
        >(CommandView::Delete { key }),
        cased_command(legacy_line(verb, key), lower_legacy, other_name, "DELETE"@) == Ok::<
            CommandView,
            ApiErrorView,
        >(CommandView::Delete { key }),
        cased_command(call_line(name, quoted(key)), lower_call, "del"@, other_verb) == Ok::<
            CommandView,
            ApiErrorView,
        >(CommandView::Delete { key }),
        cased_command(call_line(name, quoted(key)), lower_call, "delete"@, other_verb) == Ok::<
            CommandView,
            ApiErrorView,
        >(CommandView::Delete { key }),
{
    lemma_key_is_plain(key);
    assert(is_key_char(key[0]));
    assert(is_key_char(key[key.len() - 1]));
    assert(key.last() != ')');
    lemma_legacy_line_parts(verb, key);
    lemma_call_line_parts(name, quoted(key));
    law_delete_forms_agree(key);
}

/// The two forms of a `SET` line stand for the same request where both
/// exist. Take a valid key and any value, and a legacy line and a call
/// whose lower-case forms do not read `keys`: the legacy line whose verb is
/// `SET` in upper case always gives the command that stores the value under
/// the key; the call whose name is `set` in lower case gives the same
/// command exactly when the value reads as one argument, and is refused
/// otherwise.
pub proof fn law_set_lines_agree(
    key: Seq<char>,
    value: Seq<char>,
    verb: Seq<char>,
    name: Seq<char>,
    lower_legacy: Seq<char>,
    lower_call: Seq<char>,
    other_name: Seq<char>,
    other_verb: Seq<char>,
)
    requires
        valid_key(key),
        is_verb(verb),
        is_verb(name),
        lower_legacy != "keys"@,
        lower_call != "keys"@,
    ensures
        cased_command(
            legacy_line(verb, legacy_set_arguments(key, value)),
            lower_legacy,
            other_name,
            "SET"@,
        ) == Ok::<CommandView, ApiErrorView>(CommandView::Put { key, value }),
        reads_as_one_argument(key, value) ==> cased_command(
            call_line(name, call_set_arguments(key, value)),
            lower_call,
            "set"@,
            other_verb,
        ) == Ok::<CommandView, ApiErrorView>(CommandView::Put { key, value }),
        !reads_as_one_argument(key, value) ==> cased_command(
            call_line(name, call_set_arguments(key, value)),
            lower_call,
            "set"@,
            other_verb,
        ) is Err,
{
    let rest = legacy_set_arguments(key, value);
    lemma_key_is_plain(key);
    assert(is_key_char(key[0]));
    assert(rest.first() == key[0]);
    assert(rest.last() == '"');
    lemma_legacy_line_parts(verb, rest);
    lemma_call_line_parts(name, call_set_arguments(key, value));
    law_set_forms_agree(key, value);
}

/// The two forms of a `KEYS` line stand for the same request: a verb alone
/// that is `KEYS` in upper case, and a call without arguments whose name is
/// `keys` in lower case, both give the command that lists the keys,
/// whatever the other cased forms are.
pub proof fn law_keys_lines_agree(
    verb: Seq<char>,
    name: Seq<char>,
    lower_legacy: Seq<char>,
    lower_call: Seq<char>,
    other_name: Seq<char>,
    other_verb: Seq<char>,
)
    requires
        is_verb(verb),
        is_verb(name),
    ensures
        cased_command(verb, lower_legacy, other_name, "KEYS"@) == Ok::<CommandView, ApiErrorView>(
            CommandView::Keys,
        ),
        cased_command(call_line(name, Seq::empty()), lower_call, "keys"@, other_verb) == Ok::<
            CommandView,
            ApiErrorView,
        >(CommandView::Keys),
{
    lemma_lone_verb_parts(verb);
    lemma_call_line_parts(name, Seq::empty());
    law_keys_forms_agree();
}

} // verus!
