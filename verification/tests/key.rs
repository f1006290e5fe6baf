use sodium::api::Command;
use sodium::key::{check_key, KeyFault};

fn is_alnum(c: char) -> bool {
    c.is_ascii_alphanumeric()
}

fn is_sep(c: char) -> bool {
    c == '-' || c == '_'
}

/// `^[A-Za-z0-9]([A-Za-z0-9]|(?<=[A-Za-z0-9])[-_](?=[A-Za-z0-9]))*[A-Za-z0-9]$`
/// or `^[A-Za-z0-9]$`, and no two neighbouring separators.
fn matches_pattern(k: &[char]) -> bool {
    if k.is_empty() || !is_alnum(k[0]) || !is_alnum(k[k.len() - 1]) {
        return false;
    }
    for i in 1..k.len().saturating_sub(1) {
        let middle = is_alnum(k[i]) || (is_sep(k[i]) && is_alnum(k[i - 1]) && is_alnum(k[i + 1]));
        if !middle {
            return false;
        }
    }
    for i in 0..k.len() - 1 {
        if is_sep(k[i]) && is_sep(k[i + 1]) {
            return false;
        }
    }
    true
}

#[test]
fn validator_accepts_exactly_the_pattern() {
    let alphabet = ['a', 'Z', '5', '-', '_', ' ', '.', '\u{e9}'];
    let mut words: Vec<Vec<char>> = vec![vec![]];
    let mut frontier: Vec<Vec<char>> = vec![vec![]];
    for _ in 0..5 {
        let mut next = Vec::new();
        for word in &frontier {
            for c in alphabet {
                let mut longer = word.clone();
                longer.push(c);
                next.push(longer);
            }
        }
        words.extend(next.iter().cloned());
        frontier = next;
    }
    assert_eq!(words.len(), 1 + 8 + 64 + 512 + 4096 + 32768);
    for word in &words {
        let text: String = word.iter().collect();
        let accepted = Command::validate_key(&text).is_ok();
        assert_eq!(accepted, matches_pattern(word), "{:?}", text);
        assert_eq!(check_key(&text).is_none(), accepted, "{:?}", text);
    }
}

#[test]
fn faults_are_reported_in_order() {
    assert_eq!(check_key(""), Some(KeyFault::Empty));
    assert_eq!(check_key("a b"), Some(KeyFault::Space));
    assert_eq!(check_key("-a b."), Some(KeyFault::Space));
    assert_eq!(check_key("-a.b"), Some(KeyFault::InvalidChar('.')));
    assert_eq!(check_key("a.b!"), Some(KeyFault::InvalidChar('.')));
    assert_eq!(check_key("a\tb"), Some(KeyFault::InvalidChar('\t')));
    assert_eq!(check_key("-ab"), Some(KeyFault::Edge('-')));
    assert_eq!(check_key("ab_"), Some(KeyFault::Edge('_')));
    assert_eq!(check_key("_"), Some(KeyFault::Edge('_')));
    assert_eq!(check_key("a--b"), Some(KeyFault::NotFlanked('-')));
    assert_eq!(check_key("a_-b"), Some(KeyFault::NotFlanked('_')));
    assert_eq!(check_key("a-b_"), Some(KeyFault::Edge('_')));
    assert_eq!(check_key("a-b"), None);
    assert_eq!(check_key("A1-b2_C3"), None);
    assert_eq!(check_key("7"), None);
}

#[test]
fn faults_have_their_texts() {
    assert_eq!(KeyFault::Empty.to_message(), "Key cannot be empty");
    assert_eq!(KeyFault::Space.to_message(), "Key cannot contain spaces");
    assert_eq!(
        KeyFault::InvalidChar('#').to_message(),
        "Key contains invalid character '#'. Keys can only contain letters, numbers, hyphens, and underscores"
    );
    assert_eq!(
        KeyFault::Edge('-').to_message(),
        "Key cannot start or end with '-'. Hyphens and underscores must be between letters or numbers"
    );
    assert_eq!(
        KeyFault::NotFlanked('_').to_message(),
        "Invalid key format. '_' must be between letters or numbers"
    );
}
