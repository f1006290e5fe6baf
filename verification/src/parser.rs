//! The command-line front end: reads `<address> <verb> [args…]` from a
//! prompt line.

use vstd::prelude::*;
use vstd::string::*;
use crate::text::{
    char_scan, char_scan_back, find_char_back, find_char_from, join, join_from, lemma_char_scan,
    lemma_char_scan_back, split_words, str_eq, substring, to_chars, trim, trimmed, words,
};

verus! {

/// What a prompt line asks for.
#[derive(Debug, Clone, PartialEq, Eq)]
pub enum ParsedCommand {
    /// Store `value` under `key`; what the verb `set` asks for.
    Put { address: String, key: String, value: String },
    Get { address: String, key: String },
    Del { address: String, key: String },
    Keys { address: String },
    /// The line is no command: the text says why.
    Error(String),
}

/// The mathematical form of a [`ParsedCommand`].
pub enum ParsedCommandView {
    Put { address: Seq<char>, key: Seq<char>, value: Seq<char> },
    Get { address: Seq<char>, key: Seq<char> },
    Del { address: Seq<char>, key: Seq<char> },
    Keys { address: Seq<char> },
    Error(Seq<char>),
}

impl View for ParsedCommand {
    type V = ParsedCommandView;

    open spec fn view(&self) -> ParsedCommandView {
        match *self {
            ParsedCommand::Put { address, key, value } => ParsedCommandView::Put {
                address: address@,
                key: key@,
                value: value@,
            },
            ParsedCommand::Get { address, key } => ParsedCommandView::Get {
                address: address@,
                key: key@,
            },
            ParsedCommand::Del { address, key } => ParsedCommandView::Del {
                address: address@,
                key: key@,
            },
            ParsedCommand::Keys { address } => ParsedCommandView::Keys { address: address@ },
            ParsedCommand::Error(m) => ParsedCommandView::Error(m@),
        }
    }
}

/// The mathematical form of an optional prompt command.
pub open spec fn parsed_view(r: Option<ParsedCommand>) -> Option<ParsedCommandView> {
    match r {
        Some(c) => Some(c@),
        None => None,
    }
}

/// The mathematical form of an optional string.
pub open spec fn optional_view(r: Option<String>) -> Option<Seq<char>> {
    match r {
        Some(s) => Some(s@),
        None => None,
    }
}

/// What stands between the first and the last double quote of `input`, when
/// these are two different quotes.
pub open spec fn quoted_value(input: Seq<char>) -> Option<Seq<char>> {
    let start = char_scan(input, '"', 0);
    let end = char_scan_back(input, '"', input.len() as int);
    if start < input.len() && start != end {
        Some(input.subrange(start + 1, end))
    } else {
        None
    }
}

/// The text that shows how a verb is used.
pub open spec fn usage(address: Seq<char>, form: Seq<char>) -> Seq<char> {
    "Usage: "@ + address + form
}

/// What a prompt line asks for. The first word is the address and the second
/// the verb; a line with fewer words asks for nothing. The value of a `set`
/// is the quoted part of the line when the line holds a double quote, and
/// else the words after the key joined by single spaces.
pub open spec fn command_line(input: Seq<char>) -> Option<ParsedCommandView> {
    let t = trim(input);
    let parts = words(t);
    if parts.len() < 2 {
        None
    } else {
        let address = parts[0];
        let verb = parts[1];
        if verb == "set"@ {
            if parts.len() < 4 {
                Some(ParsedCommandView::Error(usage(address, " set <key> <value>"@)))
            } else if char_scan(t, '"', 0) < t.len() {
                match quoted_value(t) {
                    Some(value) => Some(ParsedCommandView::Put { address, key: parts[2], value }),
                    None => None,
                }
            } else {
                Some(
                    ParsedCommandView::Put {
                        address,
                        key: parts[2],
                        value: join(parts.subrange(3, parts.len() as int), " "@),
                    },
                )
            }
        } else if verb == "get"@ {
            if parts.len() != 3 {
                Some(ParsedCommandView::Error(usage(address, " get <key>"@)))
            } else {
                Some(ParsedCommandView::Get { address, key: parts[2] })
            }
        } else if verb == "del"@ {
            if parts.len() != 3 {
                Some(ParsedCommandView::Error(usage(address, " del <key>"@)))
            } else {
                Some(ParsedCommandView::Del { address, key: parts[2] })
            }
        } else if verb == "keys"@ {
            if parts.len() != 2 {
                Some(ParsedCommandView::Error(usage(address, " keys"@)))
            } else {
                Some(ParsedCommandView::Keys { address })
            }
        } else {
            Some(ParsedCommandView::Error("Unknown command: "@ + verb))
        }
    }
}

/// Reads the value between the first and the last double quote of `input`.
pub fn parse_quoted_value(input: &str) -> (r: Option<String>)
    ensures
        optional_view(r) == quoted_value(input@),
{
    let v = to_chars(input);
    let n = v.len();
    let start = find_char_from(&v, '"', 0);
    proof {
        lemma_char_scan(v@, '"', 0);
        lemma_char_scan_back(v@, '"', n as int);
    }
    if start < n {
        if let Some(end) = find_char_back(&v, '"', n) {
            if start != end {
                return Some(substring(&v, start + 1, end));
            }
        }
    }
    None
}

/// The error that shows how a verb is used.
fn usage_error(address: &str, form: &str) -> (r: ParsedCommand)
    ensures
        r@ == ParsedCommandView::Error(usage(address@, form@)),
{
    let mut m = "Usage: ".to_owned();
    m.append(address);
    m.append(form);
    ParsedCommand::Error(m)
}

/// Reads a prompt line.
pub fn parse_command_line(input: &str) -> (r: Option<ParsedCommand>)
    ensures
        parsed_view(r) == command_line(input@),
{
    let t = trimmed(input);
    let v = to_chars(t.as_str());
    if v.len() == 0 {
        return None;
    }
    let parts = split_words(&v);
    if parts.len() < 2 {
        return None;
    }
    let address = parts[0].clone();
    let command = parts[1].as_str();
    if str_eq(command, "set") {
        if parts.len() < 4 {
            return Some(usage_error(address.as_str(), " set <key> <value>"));
        }
        let key = parts[2].clone();
        let value = if find_char_from(&v, '"', 0) < v.len() {
            match parse_quoted_value(t.as_str()) {
                Some(value) => value,
                None => {
                    return None;
                },
            }
        } else {
            join_from(&parts, 3, " ")
        };
        Some(ParsedCommand::Put { address, key, value })
    } else if str_eq(command, "get") {
        if parts.len() != 3 {
            return Some(usage_error(address.as_str(), " get <key>"));
        }
        Some(ParsedCommand::Get { address, key: parts[2].clone() })
    } else if str_eq(command, "del") {
        if parts.len() != 3 {
            return Some(usage_error(address.as_str(), " del <key>"));
        }
        Some(ParsedCommand::Del { address, key: parts[2].clone() })
    } else if str_eq(command, "keys") {
        if parts.len() != 2 {
            return Some(usage_error(address.as_str(), " keys"));
        }
        Some(ParsedCommand::Keys { address })
    } else {
        let mut m = "Unknown command: ".to_owned();
        m.append(command);
        Some(ParsedCommand::Error(m))
    }
}

/// The line that asks the server for what a prompt command asks, and the
/// address of the server. A value goes in double quotes.
pub open spec fn request_of(command: ParsedCommandView) -> Option<(Seq<char>, Seq<char>)> {
    match command {
        ParsedCommandView::Put { address, key, value } => Some(
            (address, "SET "@ + key + " \""@ + value + "\""@),
        ),
        ParsedCommandView::Get { address, key } => Some((address, "GET "@ + key)),
        ParsedCommandView::Del { address, key } => Some((address, "DEL "@ + key)),
        ParsedCommandView::Keys { address } => Some((address, "KEYS"@)),
        ParsedCommandView::Error(_) => None,
    }
}

/// The address and the command of a prompt line that hands its command on
/// as it is: what stands before and after the first space of the trimmed
/// line. A line without a space has neither.
pub open spec fn address_and_command(input: Seq<char>) -> Option<(Seq<char>, Seq<char>)> {
    let t = trim(input);
    let space = char_scan(t, ' ', 0);
    if space < t.len() {
        Some((t.subrange(0, space), t.subrange(space + 1, t.len() as int)))
    } else {
        None
    }
}

/// The mathematical form of an optional pair of strings.
pub open spec fn optional_pair_view(r: Option<(String, String)>) -> Option<(Seq<char>, Seq<char>)> {
    match r {
        Some(p) => Some((p.0@, p.1@)),
        None => None,
    }
}

impl ParsedCommand {
    /// The address to connect to and the line to send.
    pub fn request(&self) -> (r: Option<(String, String)>)
        ensures
            optional_pair_view(r) == request_of(self@),
    {
        match self {
            ParsedCommand::Put { address, key, value } => {
                let mut line = "SET ".to_owned();
                line.append(key.as_str());
                line.append(" \"");
                line.append(value.as_str());
                line.append("\"");
                Some((address.clone(), line))
            },
            ParsedCommand::Get { address, key } => {
                let mut line = "GET ".to_owned();
                line.append(key.as_str());
                Some((address.clone(), line))
            },
            ParsedCommand::Del { address, key } => {
                let mut line = "DEL ".to_owned();
                line.append(key.as_str());
                Some((address.clone(), line))
            },
            ParsedCommand::Keys { address } => Some((address.clone(), "KEYS".to_owned())),
            ParsedCommand::Error(_) => None,
        }
    }
}

/// Cuts a prompt line into the address and the command to hand on.
pub fn split_address(input: &str) -> (r: Option<(String, String)>)
    ensures
        optional_pair_view(r) == address_and_command(input@),
{
    let t = trimmed(input);
    let v = to_chars(t.as_str());
    let space = find_char_from(&v, ' ', 0);
    if space < v.len() {
        Some((substring(&v, 0, space), substring(&v, space + 1, v.len())))
    } else {
        None
    }
}

} // verus!
