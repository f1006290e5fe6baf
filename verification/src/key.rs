//! The syntactic rule that every key must meet, and the validator that
//! enforces it when a command is parsed.

use vstd::prelude::*;
use vstd::string::*;
use crate::text::{is_ascii_alphanumeric, char_is_ascii_alphanumeric, to_chars};

verus! {

/// `-` and `_`, the two characters that may join the parts of a key.
pub open spec fn is_separator(c: char) -> bool {
    c == '-' || c == '_'
}

/// The characters a key may hold.
pub open spec fn is_key_char(c: char) -> bool {
    is_ascii_alphanumeric(c) || is_separator(c)
}

/// The character at `i` is neither first nor last and has a letter or digit
/// on both sides.
pub open spec fn flanked(k: Seq<char>, i: int) -> bool {
    &&& 0 < i < k.len() - 1
    &&& is_ascii_alphanumeric(k[i - 1])
    &&& is_ascii_alphanumeric(k[i + 1])
}

/// The key invariant: not empty, made of letters, digits, `-` and `_`, with
/// each `-` or `_` between two letters or digits.
pub open spec fn valid_key(k: Seq<char>) -> bool {
    &&& k.len() > 0
    &&& forall|i: int| 0 <= i < k.len() ==> is_key_char(#[trigger] k[i])
    &&& forall|i: int| 0 <= i < k.len() && is_separator(#[trigger] k[i]) ==> flanked(k, i)
}

/// Some two neighbouring characters of `k` are both `-` or `_`.
pub open spec fn has_adjacent_separators(k: Seq<char>) -> bool {
    exists|i: int| 0 <= i < k.len() - 1 && is_separator(#[trigger] k[i]) && is_separator(k[i + 1])
}

/// `k` has the shape `[A-Za-z0-9]` or
/// `[A-Za-z0-9]( [A-Za-z0-9] | (?<=[A-Za-z0-9]) [-_] (?=[A-Za-z0-9]) )* [A-Za-z0-9]`:
/// it starts and ends with a letter or digit, and each character between is
/// a letter or digit, or a `-` or `_` with a letter or digit on both sides.
pub open spec fn matches_key_pattern(k: Seq<char>) -> bool {
    &&& k.len() >= 1
    &&& is_ascii_alphanumeric(k[0])
    &&& is_ascii_alphanumeric(k[k.len() - 1])
    &&& forall|i: int|
        0 < i < k.len() - 1 ==> is_ascii_alphanumeric(#[trigger] k[i]) || (is_separator(k[i])
            && is_ascii_alphanumeric(k[i - 1]) && is_ascii_alphanumeric(k[i + 1]))
}

/// A key is valid exactly when it matches the key pattern and holds no two
/// neighbouring separators.
pub proof fn lemma_valid_key_is_pattern(k: Seq<char>)
    ensures
        valid_key(k) <==> matches_key_pattern(k) && !has_adjacent_separators(k),
{
    if valid_key(k) {
        assert(is_key_char(k[0]));
        assert(is_key_char(k[k.len() - 1]));
        assert forall|i: int| 0 < i < k.len() - 1 implies is_ascii_alphanumeric(#[trigger] k[i])
            || (is_separator(k[i]) && is_ascii_alphanumeric(k[i - 1]) && is_ascii_alphanumeric(
            k[i + 1],
        )) by {
            assert(is_key_char(k[i]));
        }
        if has_adjacent_separators(k) {
            let i = choose|i: int|
                0 <= i < k.len() - 1 && is_separator(#[trigger] k[i]) && is_separator(k[i + 1]);
            assert(flanked(k, i));
        }
    }
    if matches_key_pattern(k) && !has_adjacent_separators(k) {
        assert forall|i: int| 0 <= i < k.len() implies is_key_char(#[trigger] k[i]) by {
            if 0 < i < k.len() - 1 {
                assert(is_ascii_alphanumeric(k[i]) || is_separator(k[i]));
            }
        }
        assert forall|i: int| 0 <= i < k.len() && is_separator(#[trigger] k[i]) implies flanked(
            k,
            i,
        ) by {
            if 0 < i < k.len() - 1 {
                assert(is_ascii_alphanumeric(k[i]) || is_separator(k[i]));
            }
        }
    }
}

/// A valid key holds no two neighbouring separators.
pub proof fn lemma_valid_key_has_no_adjacent_separators(k: Seq<char>)
    requires
        valid_key(k),
    ensures
        !has_adjacent_separators(k),
{
    lemma_valid_key_is_pattern(k);
}

/// The first index at or after `i` whose character a key may not hold, or
/// the length of `k` when there is none.
pub open spec fn first_invalid_char(k: Seq<char>, i: int) -> int
    decreases k.len() - i,
{
    if 0 <= i < k.len() && is_key_char(k[i]) {
        first_invalid_char(k, i + 1)
    } else {
        i
    }
}

/// The first index at or after `i` that holds a separator which is not
/// flanked by letters or digits, or the length of `k` when there is none.
pub open spec fn first_misplaced_separator(k: Seq<char>, i: int) -> int
    decreases k.len() - i,
{
    if 0 <= i < k.len() && !(is_separator(k[i]) && !flanked(k, i)) {
        first_misplaced_separator(k, i + 1)
    } else {
        i
    }
}

/// What [`first_invalid_char`] finds: every character from `i` up to the
/// result may stand in a key, and the character at the result may not.
pub proof fn lemma_first_invalid_char(k: Seq<char>, i: int)
    requires
        0 <= i <= k.len(),
    ensures
        i <= first_invalid_char(k, i) <= k.len(),
        forall|j: int| i <= j < first_invalid_char(k, i) ==> is_key_char(#[trigger] k[j]),
        first_invalid_char(k, i) < k.len() ==> !is_key_char(k[first_invalid_char(k, i)]),
    decreases k.len() - i,
{
    if i < k.len() && is_key_char(k[i]) {
        lemma_first_invalid_char(k, i + 1);
    }
}

/// What [`first_misplaced_separator`] finds: every separator from `i` up to
/// the result is flanked, and the character at the result is a separator
/// that is not.
pub proof fn lemma_first_misplaced_separator(k: Seq<char>, i: int)
    requires
        0 <= i <= k.len(),
    ensures
        i <= first_misplaced_separator(k, i) <= k.len(),
        forall|j: int|
            i <= j < first_misplaced_separator(k, i) && is_separator(#[trigger] k[j]) ==> flanked(
                k,
                j,
            ),
        first_misplaced_separator(k, i) < k.len() ==> is_separator(
            k[first_misplaced_separator(k, i)],
        ) && !flanked(k, first_misplaced_separator(k, i)),
    decreases k.len() - i,
{
    if i < k.len() && !(is_separator(k[i]) && !flanked(k, i)) {
        lemma_first_misplaced_separator(k, i + 1);
    }
}

/// Why a key is refused.
#[derive(Debug, Clone, Copy, PartialEq, Eq, Structural)]
pub enum KeyFault {
    /// The key has no characters.
    Empty,
    /// The key holds a space.
    Space,
    /// The key holds this character, which no key may hold.
    InvalidChar(char),
    /// The key starts or ends with this separator.
    Edge(char),
    /// This separator does not stand between two letters or digits.
    NotFlanked(char),
}

/// The fault reported for `k`: the first rule that `k` breaks, in the order
/// empty, space, character set, placement of separators; `None` for a key
/// that breaks none.
pub open spec fn key_fault(k: Seq<char>) -> Option<KeyFault> {
    let bad = first_invalid_char(k, 0);
    let sep = first_misplaced_separator(k, 0);
    if k.len() == 0 {
        Some(KeyFault::Empty)
    } else if k.contains(' ') {
        Some(KeyFault::Space)
    } else if bad < k.len() {
        Some(KeyFault::InvalidChar(k[bad]))
    } else if sep < k.len() {
        if sep == 0 || sep == k.len() - 1 {
            Some(KeyFault::Edge(k[sep]))
        } else {
            Some(KeyFault::NotFlanked(k[sep]))
        }
    } else {
        None
    }
}

/// A key has no fault exactly when it is valid.
pub proof fn lemma_key_fault_none_iff_valid(k: Seq<char>)
    ensures
        key_fault(k) is None <==> valid_key(k),
{
    lemma_first_invalid_char(k, 0);
    lemma_first_misplaced_separator(k, 0);
    if valid_key(k) {
        if k.contains(' ') {
            let i = choose|i: int| 0 <= i < k.len() && k[i] == ' ';
            assert(is_key_char(k[i]));
        }
        let bad = first_invalid_char(k, 0);
        if bad < k.len() {
            assert(is_key_char(k[bad]));
        }
    }
}

impl KeyFault {
    /// The text that reports the fault.
    pub open spec fn message(self) -> Seq<char> {
        match self {
            KeyFault::Empty => "Key cannot be empty"@,
            KeyFault::Space => "Key cannot contain spaces"@,
            KeyFault::InvalidChar(c) => "Key contains invalid character '"@.push(c)
                + "'. Keys can only contain letters, numbers, hyphens, and underscores"@,
            KeyFault::Edge(c) => "Key cannot start or end with '"@.push(c)
                + "'. Hyphens and underscores must be between letters or numbers"@,
            KeyFault::NotFlanked(c) => "Invalid key format. '"@.push(c)
                + "' must be between letters or numbers"@,
        }
    }

    /// The text that reports the fault.
    pub fn to_message(&self) -> (m: String)
        ensures
            m@ == self.message(),
    {
        match *self {
            KeyFault::Empty => "Key cannot be empty".to_owned(),
            KeyFault::Space => "Key cannot contain spaces".to_owned(),
            KeyFault::InvalidChar(c) => {
                let mut m = "Key contains invalid character '".to_owned();
                m.push(c);
                m.append("'. Keys can only contain letters, numbers, hyphens, and underscores");
                m
            },
            KeyFault::Edge(c) => {
                let mut m = "Key cannot start or end with '".to_owned();
                m.push(c);
                m.append("'. Hyphens and underscores must be between letters or numbers");
                m
            },
            KeyFault::NotFlanked(c) => {
                let mut m = "Invalid key format. '".to_owned();
                m.push(c);
                m.append("' must be between letters or numbers");
                m
            },
        }
    }
}

/// Whether `c` is `-` or `_`.
fn char_is_separator(c: char) -> (b: bool)
    ensures
        b == is_separator(c),
{
    c == '-' || c == '_'
}

/// Finds the fault of a key, if it has one.
pub fn check_key(key: &str) -> (r: Option<KeyFault>)
    ensures
        r == key_fault(key@),
        r is None <==> valid_key(key@),
{
    let v = to_chars(key);
    let n = v.len();
    proof {
        lemma_key_fault_none_iff_valid(v@);
    }
    if n == 0 {
        return Some(KeyFault::Empty);
    }
    let mut i: usize = 0;
    while i < n
        invariant
            i <= n == v.len(),
            forall|j: int| 0 <= j < i ==> v@[j] != ' ',
            v@ == key@,
            key_fault(v@) is None <==> valid_key(v@),
        decreases n - i,
    {
        if v[i] == ' ' {
            assert(v@.contains(' '));
            return Some(KeyFault::Space);
        }
        i += 1;
    }
    assert(!v@.contains(' '));
    i = 0;
    while i < n
        invariant
            i <= n == v.len(),
            n > 0,
            !v@.contains(' '),
            first_invalid_char(v@, 0) == first_invalid_char(v@, i as int),
            v@ == key@,
            key_fault(v@) is None <==> valid_key(v@),
        decreases n - i,
    {
        let c = v[i];
        if !(char_is_ascii_alphanumeric(c) || char_is_separator(c)) {
            return Some(KeyFault::InvalidChar(c));
        }
        i += 1;
    }
    i = 0;
    while i < n
        invariant
            i <= n == v.len(),
            n > 0,
            !v@.contains(' '),
            first_invalid_char(v@, 0) == n,
            first_misplaced_separator(v@, 0) == first_misplaced_separator(v@, i as int),
            v@ == key@,
            key_fault(v@) is None <==> valid_key(v@),
        decreases n - i,
    {
        let c = v[i];
        if char_is_separator(c) {
            if i == 0 || i == n - 1 {
                return Some(KeyFault::Edge(c));
            }
            if !char_is_ascii_alphanumeric(v[i - 1]) || !char_is_ascii_alphanumeric(v[i + 1]) {
                return Some(KeyFault::NotFlanked(c));
            }
        }
        i += 1;
    }
    None
}

} // verus!
