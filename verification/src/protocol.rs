//! What the server does with one request: run the command against the
//! store, and write the outcome as one line of the reply.

use vstd::prelude::*;
use vstd::string::*;
use crate::api::{Command, CommandView};
use crate::cache::{lists_keys, CacheError, CacheErrorView, Sodium, StoreView};
use crate::grammar::command;
use crate::key::{is_key_char, valid_key};
use crate::search::{searched, SearchEngine, SearchType};
use crate::text::{join, join_from, trim, trimmed, views};

verus! {

/// Why a task gave no outcome.
#[derive(Debug, Clone, PartialEq, Eq)]
pub enum TaskError {
    /// The task could not be handed to a worker.
    NotQueued,
    /// The worker gave the task up before it replied.
    Abandoned,
    /// The store refused the operation.
    Cache(CacheError),
}

/// The mathematical form of a [`TaskError`].
pub enum TaskErrorView {
    NotQueued,
    Abandoned,
    Cache(CacheErrorView),
}

impl View for TaskError {
    type V = TaskErrorView;

    open spec fn view(&self) -> TaskErrorView {
        match *self {
            TaskError::NotQueued => TaskErrorView::NotQueued,
            TaskError::Abandoned => TaskErrorView::Abandoned,
            TaskError::Cache(e) => TaskErrorView::Cache(e@),
        }
    }
}

impl TaskErrorView {
    /// The text of the error.
    pub open spec fn message(self) -> Seq<char> {
        match self {
            TaskErrorView::NotQueued => "Failed to queue task"@,
            TaskErrorView::Abandoned => "Task execution failed"@,
            TaskErrorView::Cache(e) => e.message(),
        }
    }
}

impl TaskError {
    /// The text of the error.
    pub fn message(&self) -> (m: String)
        ensures
            m@ == self@.message(),
    {
        match self {
            TaskError::NotQueued => "Failed to queue task".to_owned(),
            TaskError::Abandoned => "Task execution failed".to_owned(),
            TaskError::Cache(e) => e.message(),
        }
    }
}

/// What a command gave.
#[derive(Debug, Clone, PartialEq, Eq)]
pub enum Outcome {
    /// The value was stored.
    Stored,
    /// The value that was read, or `None` on a miss.
    Value(Option<String>),
    /// Whether the deleted key was there.
    Deleted(bool),
    /// The keys that were listed or found.
    Keys(Vec<String>),
}

/// The mathematical form of an [`Outcome`].
pub enum OutcomeView {
    Stored,
    Value(Option<Seq<char>>),
    Deleted(bool),
    Keys(Seq<Seq<char>>),
}

impl View for Outcome {
    type V = OutcomeView;

    open spec fn view(&self) -> OutcomeView {
        match *self {
            Outcome::Stored => OutcomeView::Stored,
            Outcome::Value(Some(v)) => OutcomeView::Value(Some(v@)),
            Outcome::Value(None) => OutcomeView::Value(None),
            Outcome::Deleted(existed) => OutcomeView::Deleted(existed),
            Outcome::Keys(keys) => OutcomeView::Keys(views(keys@)),
        }
    }
}

/// The mathematical form of the result of a task.
pub open spec fn task_result(r: Result<Outcome, TaskError>) -> Result<OutcomeView, TaskErrorView> {
    match r {
        Ok(outcome) => Ok(outcome@),
        Err(e) => Err(e@),
    }
}

/// What running `command` on the store `before` may give: the result and the
/// store `after`. The times of access come from the clock and the order of
/// listed keys from the store: whatever these are, the rest is fixed.
pub open spec fn runs(
    before: StoreView,
    command: CommandView,
    result: Result<OutcomeView, TaskErrorView>,
    after: StoreView,
) -> bool {
    match command {
        CommandView::Put { key, value } => {
            &&& result == Ok::<OutcomeView, TaskErrorView>(OutcomeView::Stored)
            &&& exists|now: u64| after == before.set(key, value, now)
        },
        CommandView::Get { key } => {
            &&& result == Ok::<OutcomeView, TaskErrorView>(OutcomeView::Value(before.lookup(key)))
            &&& exists|now: u64| after == before.get(key, now)
        },
        CommandView::Delete { key } => {
            &&& result == Ok::<OutcomeView, TaskErrorView>(
                OutcomeView::Deleted(before.entries.contains_key(key)),
            )
            &&& after == before.delete(key)
        },
        CommandView::Keys => {
            &&& result matches Ok(OutcomeView::Keys(keys))
            &&& lists_keys(keys, before)
            &&& after == before.listed()
        },
        CommandView::Search { search_type, queries } => {
            &&& result matches Ok(OutcomeView::Keys(found))
            &&& searched(before, search_type, queries, found, after)
        },
    }
}

/// The text that answers a list of keys: the keys with a space between each
/// two, or `(empty)` for none.
pub open spec fn keys_text(keys: Seq<Seq<char>>) -> Seq<char> {
    if keys.len() == 0 {
        "(empty)"@
    } else {
        join(keys, " "@)
    }
}

/// What is joined from parts of which the first is not empty starts as its
/// first part starts.
pub proof fn lemma_join_starts_with_first(parts: Seq<Seq<char>>, sep: Seq<char>)
    requires
        parts.len() >= 1,
        parts[0].len() > 0,
    ensures
        join(parts, sep).len() > 0,
        join(parts, sep)[0] == parts[0][0],
    decreases parts.len(),
{
    if parts.len() >= 2 {
        assert(parts.drop_last()[0] == parts[0]);
        lemma_join_starts_with_first(parts.drop_last(), sep);
    }
}

/// A list of valid keys is answered with `(empty)` exactly when it is
/// empty: no valid key starts as `(empty)` starts.
pub proof fn law_empty_reply_means_no_keys(keys: Seq<Seq<char>>)
    requires
        forall|i: int| 0 <= i < keys.len() ==> valid_key(#[trigger] keys[i]),
    ensures
        keys_text(keys) == "(empty)"@ <==> keys.len() == 0,
{
    reveal_strlit("(empty)");
    if keys.len() > 0 {
        assert(valid_key(keys[0]));
        assert(is_key_char(keys[0][0]));
        lemma_join_starts_with_first(keys, " "@);
        assert(join(keys, " "@)[0] != "(empty)"@[0]);
    }
}

/// The line that answers a request, without its end of line.
pub open spec fn reply_text(result: Result<OutcomeView, TaskErrorView>) -> Seq<char> {
    match result {
        Ok(OutcomeView::Stored) => "OK"@,
        Ok(OutcomeView::Value(Some(value))) => value,
        Ok(OutcomeView::Value(None)) => "NULL"@,
        Ok(OutcomeView::Deleted(existed)) => if existed {
            "1"@
        } else {
            "0"@
        },
        Ok(OutcomeView::Keys(keys)) => keys_text(keys),
        Err(e) => "ERROR: "@ + e.message(),
    }
}

/// The line that answers a request that is no command.
pub open spec fn invalid_endpoint() -> Seq<char> {
    "ERROR: Invalid endpoint format"@
}

/// Reads the value stored under `key`. A miss is no error: it gives `None`.
pub fn execute_get(store: &mut Sodium, key: &str) -> (r: Result<Option<String>, TaskError>)
    ensures
        r matches Ok(value) && match value {
            Some(v) => old(store)@.lookup(key@) == Some(v@),
            None => old(store)@.lookup(key@) is None,
        },
        exists|now: u64| final(store)@ == old(store)@.get(key@, now),
{
    match store.get(key) {
        Ok(value) => Ok(Some(value)),
        Err(CacheError::KeyNotFound(_)) => Ok(None),
    }
}

/// Stores `value` under `key`.
pub fn execute_set(store: &mut Sodium, key: String, value: String) -> (r: Result<(), TaskError>)
    ensures
        r is Ok,
        exists|now: u64| final(store)@ == old(store)@.set(key@, value@, now),
{
    match store.set(key, value) {
        Ok(_) => Ok(()),
        Err(e) => Err(TaskError::Cache(e)),
    }
}

/// Removes `key` and says whether it was there.
pub fn execute_delete(store: &mut Sodium, key: &str) -> (r: Result<bool, TaskError>)
    ensures
        r == Ok::<bool, TaskError>(old(store)@.entries.contains_key(key@)),
        final(store)@ == old(store)@.delete(key@),
{
    match store.delete(key) {
        Ok(existed) => Ok(existed),
        Err(e) => Err(TaskError::Cache(e)),
    }
}

/// Lists every key once.
pub fn execute_keys(store: &mut Sodium) -> (r: Result<Vec<String>, TaskError>)
    ensures
        r matches Ok(keys) && lists_keys(views(keys@), old(store)@),
        final(store)@ == old(store)@.listed(),
{
    match store.keys() {
        Ok(keys) => Ok(keys),
        Err(e) => Err(TaskError::Cache(e)),
    }
}

/// Finds the keys whose entry matches every query under the given mode.
pub fn execute_search_multiple(
    store: &mut Sodium,
    search_type: SearchType,
    queries: Vec<String>,
) -> (r: Result<Vec<String>, TaskError>)
    ensures
        r matches Ok(found) && searched(
            old(store)@,
            search_type,
            views(queries@),
            views(found@),
            final(store)@,
        ),
{
    match SearchEngine::search_multiple(store, search_type, queries.as_slice()) {
        Ok(found) => Ok(found),
        Err(e) => Err(TaskError::Cache(e)),
    }
}

/// Runs one command against the store.
pub fn execute_task(store: &mut Sodium, command: Command) -> (r: Result<Outcome, TaskError>)
    ensures
        runs(old(store)@, command@, task_result(r), final(store)@),
{
    match command {
        Command::Put { key, value } => {
            let ghost k = key@;
            let ghost v = value@;
            let r = match execute_set(store, key, value) {
                Ok(_) => Ok(Outcome::Stored),
                Err(e) => Err(e),
            };
            proof {
                // The command has given up its key and its value: what it
                // stands for is told from their views.
                assert(command@ matches CommandView::Put { key, value } && key == k && value == v);
                assert(task_result(r) == Ok::<OutcomeView, TaskErrorView>(OutcomeView::Stored));
                assert(exists|now: u64| store@ == old(store)@.set(k, v, now));
            }
            r
        },
        Command::Get { key } => match execute_get(store, key.as_str()) {
            Ok(value) => Ok(Outcome::Value(value)),
            Err(e) => Err(e),
        },
        Command::Delete { key } => match execute_delete(store, key.as_str()) {
            Ok(existed) => Ok(Outcome::Deleted(existed)),
            Err(e) => Err(e),
        },
        Command::Keys => match execute_keys(store) {
            Ok(keys) => Ok(Outcome::Keys(keys)),
            Err(e) => Err(e),
        },
        Command::Search { search_type, queries } => match execute_search_multiple(
            store,
            search_type,
            queries,
        ) {
            Ok(found) => Ok(Outcome::Keys(found)),
            Err(e) => Err(e),
        },
    }
}

/// Writes the result of a task as the line that answers the request,
/// without its end of line.
pub fn format_reply(result: &Result<Outcome, TaskError>) -> (line: String)
    ensures
        line@ == reply_text(task_result(*result)),
{
    match result {
        Ok(Outcome::Stored) => "OK".to_owned(),
        Ok(Outcome::Value(Some(value))) => value.clone(),
        Ok(Outcome::Value(None)) => "NULL".to_owned(),
        Ok(Outcome::Deleted(existed)) => {
            if *existed {
                "1".to_owned()
            } else {
                "0".to_owned()
            }
        },
        Ok(Outcome::Keys(keys)) => {
            if keys.len() == 0 {
                "(empty)".to_owned()
            } else {
                proof {
                    assert(views(keys@).subrange(0, keys@.len() as int) =~= views(keys@));
                }
                join_from(keys, 0, " ")
            }
        },
        Err(e) => {
            let mut line = "ERROR: ".to_owned();
            line.append(e.message().as_str());
            line
        },
    }
}

/// Runs one command against the store and writes the line that answers it.
pub fn execute_command(store: &mut Sodium, command: Command) -> (line: String)
    ensures
        exists|result: Result<OutcomeView, TaskErrorView>|
            runs(old(store)@, command@, result, final(store)@) && line@ == reply_text(result),
{
    let result = execute_task(store, command);
    format_reply(&result)
}

/// What a line that a client sent asks of the server.
#[derive(Debug, Clone, PartialEq, Eq)]
pub enum Request {
    /// The line holds white space alone: it gets no answer.
    Blank,
    /// The line is no command.
    Invalid,
    /// The line asks for this command.
    Run(Command),
}

/// The mathematical form of a [`Request`].
pub enum RequestView {
    Blank,
    Invalid,
    Run(CommandView),
}

impl View for Request {
    type V = RequestView;

    open spec fn view(&self) -> RequestView {
        match *self {
            Request::Blank => RequestView::Blank,
            Request::Invalid => RequestView::Invalid,
            Request::Run(c) => RequestView::Run(c@),
        }
    }
}

/// What the line `input` asks of the server.
pub open spec fn request(input: Seq<char>) -> RequestView {
    if trim(input).len() == 0 {
        RequestView::Blank
    } else {
        match command(trim(input)) {
            Ok(c) => RequestView::Run(c),
            Err(_) => RequestView::Invalid,
        }
    }
}

/// Reads what a line that a client sent asks of the server.
pub fn read_request(line: &str) -> (r: Request)
    ensures
        r@ == request(line@),
{
    let text = trimmed(line);
    if text.as_str().is_empty() {
        return Request::Blank;
    }
    match Command::parse(text.as_str()) {
        Ok(command) => Request::Run(command),
        Err(_) => Request::Invalid,
    }
}

/// Writes the result of a task as the answer to send: the line that
/// answers the request, and a line feed.
pub fn frame_reply(result: &Result<Outcome, TaskError>) -> (reply: String)
    ensures
        reply@ == reply_text(task_result(*result)) + "\n"@,
{
    let mut reply = format_reply(result);
    reply.append("\n");
    reply
}

/// The answer to send for a line that is no command.
pub fn invalid_endpoint_reply() -> (reply: String)
    ensures
        reply@ == invalid_endpoint() + "\n"@,
{
    let mut reply = "ERROR: Invalid endpoint format".to_owned();
    reply.append("\n");
    reply
}

/// Whether `reply` may answer the line `input` on the store `before`,
/// leaving the store `after`. A line of white space alone gets no answer. A
/// line that is no command gets the line that says so, and any other line
/// the line that its command's result gives; an answer ends with a line
/// feed.
pub open spec fn answers(
    before: StoreView,
    input: Seq<char>,
    reply: Option<Seq<char>>,
    after: StoreView,
) -> bool {
    match request(input) {
        RequestView::Blank => reply is None && after == before,
        RequestView::Invalid => reply == Some(invalid_endpoint() + "\n"@) && after == before,
        RequestView::Run(c) => exists|result: Result<OutcomeView, TaskErrorView>|
            runs(before, c, result, after) && reply == Some(reply_text(result) + "\n"@),
    }
}

/// Answers one line that a client sent.
pub fn handle_line(store: &mut Sodium, line: &str) -> (reply: Option<String>)
    ensures
        answers(
            old(store)@,
            line@,
            match reply {
                Some(text) => Some(text@),
                None => None,
            },
            final(store)@,
        ),
{
    match read_request(line) {
        Request::Blank => None,
        Request::Invalid => Some(invalid_endpoint_reply()),
        Request::Run(command) => {
            let result = execute_task(store, command);
            Some(frame_reply(&result))
        },
    }
}

} // verus!
