//! The search engine: a case-insensitive test that every query is a
//! substring of a key, of its value, or of both.

use vstd::prelude::*;
use vstd::string::*;
use crate::cache::{
    bump, bump_by, lists_keys, present_count, same_values, value_in, CacheError, Sodium,
    StoreView,
};
use crate::text::{
    contains_chars, contains_seq, lowercase, push_string, str_eq, to_chars, to_lowercase,
    trim, trimmed, views,
};

verus! {

/// Which fields of an entry the queries must match.
#[derive(Debug, Clone, Copy, PartialEq, Eq, Structural)]
pub enum SearchType {
    Key,
    Value,
    KeyOrValue,
    KeyAndValue,
}

/// The mode that a trimmed, lower-case mode name stands for.
pub open spec fn search_type_named(name: Seq<char>) -> Option<SearchType> {
    if name == "key"@ {
        Some(SearchType::Key)
    } else if name == "value"@ {
        Some(SearchType::Value)
    } else if name == "key or value"@ {
        Some(SearchType::KeyOrValue)
    } else if name == "key and value"@ {
        Some(SearchType::KeyAndValue)
    } else {
        None
    }
}

/// The text that refuses `input` as a mode name.
pub open spec fn invalid_search_type_message(input: Seq<char>) -> Seq<char> {
    "Invalid search type: "@ + input
        + ". Valid types are: key, value, key or value, key and value"@
}

impl SearchType {
    /// The mode that a trimmed, lower-case mode name stands for.
    pub fn from_name(name: &str) -> (r: Option<SearchType>)
        ensures
            r == search_type_named(name@),
    {
        if str_eq(name, "key") {
            Some(SearchType::Key)
        } else if str_eq(name, "value") {
            Some(SearchType::Value)
        } else if str_eq(name, "key or value") {
            Some(SearchType::KeyOrValue)
        } else if str_eq(name, "key and value") {
            Some(SearchType::KeyAndValue)
        } else {
            None
        }
    }

    /// Reads a mode name, ignoring case and surrounding white space.
    pub fn parse(input: &str) -> (r: Result<SearchType, String>)
        ensures
            match search_type_named(lowercase(trim(input@))) {
                Some(t) => r == Ok::<SearchType, String>(t),
                None => r matches Err(m) && m@ == invalid_search_type_message(input@),
            },
    {
        let t = trimmed(input);
        let lower = to_lowercase(t.as_str());
        match SearchType::from_name(lower.as_str()) {
            Some(t) => Ok(t),
            None => {
                let mut m = "Invalid search type: ".to_owned();
                m.append(input);
                m.append(". Valid types are: key, value, key or value, key and value");
                Err(m)
            },
        }
    }
}

/// Whether every query stands somewhere in `text`.
pub open spec fn contains_all(text: Seq<char>, queries: Seq<Seq<char>>) -> bool {
    forall|i: int| 0 <= i < queries.len() ==> contains_seq(text, #[trigger] queries[i])
}

/// Every query in lower case.
pub open spec fn lowercase_each(queries: Seq<Seq<char>>) -> Seq<Seq<char>> {
    queries.map_values(|q: Seq<char>| lowercase(q))
}

/// Whether an entry matches, given its key and its value in lower case:
/// `K` says that the key holds every query, `V` that there is a value and
/// that it does so. The mode asks for `K`, for `V`, for one of them or for
/// both.
pub open spec fn cased_entry_matches(
    search_type: SearchType,
    key_lower: Seq<char>,
    value_lower: Option<Seq<char>>,
    queries: Seq<Seq<char>>,
) -> bool {
    let k = contains_all(key_lower, queries);
    let v = value_lower is Some && contains_all(value_lower->0, queries);
    match search_type {
        SearchType::Key => k,
        SearchType::Value => v,
        SearchType::KeyOrValue => k || v,
        SearchType::KeyAndValue => k && v,
    }
}

/// The value in lower case, if there is one.
pub open spec fn lowercase_value(value: Option<Seq<char>>) -> Option<Seq<char>> {
    match value {
        Some(v) => Some(lowercase(v)),
        None => None,
    }
}

/// Whether an entry matches: its key and its value are matched in lower
/// case.
pub open spec fn entry_matches(
    search_type: SearchType,
    key: Seq<char>,
    value: Option<Seq<char>>,
    queries: Seq<Seq<char>>,
) -> bool {
    cased_entry_matches(search_type, lowercase(key), lowercase_value(value), queries)
}

/// The keys of `keys` whose entry in `store` matches, in the order of `keys`.
pub open spec fn select(
    keys: Seq<Seq<char>>,
    store: Map<Seq<char>, (Seq<char>, u64)>,
    search_type: SearchType,
    queries: Seq<Seq<char>>,
) -> Seq<Seq<char>>
    decreases keys.len(),
{
    if keys.len() == 0 {
        seq![]
    } else {
        let before = select(keys.drop_last(), store, search_type, queries);
        if entry_matches(search_type, keys.last(), value_in(store, keys.last()), queries) {
            before.push(keys.last())
        } else {
            before
        }
    }
}

/// How many reads of the store a search over `n` keys makes: none when only
/// keys are matched, one for each key otherwise.
pub open spec fn reads(search_type: SearchType, n: nat) -> nat {
    if search_type == SearchType::Key {
        0
    } else {
        n
    }
}

/// A key is selected exactly when it is listed and its entry matches.
pub proof fn lemma_select_contains(
    keys: Seq<Seq<char>>,
    store: Map<Seq<char>, (Seq<char>, u64)>,
    search_type: SearchType,
    queries: Seq<Seq<char>>,
    key: Seq<char>,
)
    ensures
        select(keys, store, search_type, queries).contains(key) <==> keys.contains(key)
            && entry_matches(search_type, key, value_in(store, key), queries),
    decreases keys.len(),
{
    if keys.len() > 0 {
        let before = select(keys.drop_last(), store, search_type, queries);
        lemma_select_contains(keys.drop_last(), store, search_type, queries, key);
        let last = keys.last();
        if keys.contains(key) {
            let i = choose|i: int| 0 <= i < keys.len() && keys[i] == key;
            if i < keys.len() - 1 {
                assert(keys.drop_last()[i] == key);
            }
        }
        if keys.drop_last().contains(key) {
            let i = choose|i: int| 0 <= i < keys.drop_last().len() && keys.drop_last()[i] == key;
            assert(keys[i] == key);
        }
        if entry_matches(search_type, last, value_in(store, last), queries) {
            assert(before.push(last).last() == last);
            if before.contains(key) {
                let i = choose|i: int| 0 <= i < before.len() && before[i] == key;
                assert(before.push(last)[i] == key);
            }
            if before.push(last).contains(key) && key != last {
                let i = choose|i: int|
                    0 <= i < before.push(last).len() && before.push(last)[i] == key;
                assert(before[i] == key);
            }
        }
    }
}

/// Selecting from a list without repeats gives a list without repeats.
pub proof fn lemma_select_no_duplicates(
    keys: Seq<Seq<char>>,
    store: Map<Seq<char>, (Seq<char>, u64)>,
    search_type: SearchType,
    queries: Seq<Seq<char>>,
)
    requires
        keys.no_duplicates(),
    ensures
        select(keys, store, search_type, queries).no_duplicates(),
    decreases keys.len(),
{
    if keys.len() > 0 {
        let before = select(keys.drop_last(), store, search_type, queries);
        lemma_select_no_duplicates(keys.drop_last(), store, search_type, queries);
        lemma_select_contains(keys.drop_last(), store, search_type, queries, keys.last());
        if keys.drop_last().contains(keys.last()) {
            let i = choose|i: int|
                0 <= i < keys.drop_last().len() && keys.drop_last()[i] == keys.last();
            assert(keys[i] == keys[keys.len() - 1]);
        }
    }
}

/// The search engine.
pub struct SearchEngine;

impl SearchEngine {
    /// Whether every query stands somewhere in `text`, character for
    /// character.
    pub fn contains_all_in(text: &str, queries: &[String]) -> (r: bool)
        ensures
            r == contains_all(text@, views(queries@)),
    {
        let hay = to_chars(text);
        let mut q: usize = 0;
        while q < queries.len()
            invariant
                q <= queries.len(),
                hay@ == text@,
                forall|j: int| 0 <= j < q ==> contains_seq(hay@, #[trigger] views(queries@)[j]),
            decreases queries.len() - q,
        {
            let needle = to_chars(queries[q].as_str());
            let found = contains_chars(&hay, &needle);
            if !found {
                assert(!contains_seq(hay@, views(queries@)[q as int]));
                return false;
            }
            q += 1;
        }
        true
    }

    /// Whether the key holds every query, without regard to case. The
    /// queries are taken as they are: the caller has them in lower case.
    pub fn key_contains_all(key: &str, queries: &[String]) -> (r: bool)
        ensures
            r == contains_all(lowercase(key@), views(queries@)),
    {
        let key_lower = to_lowercase(key);
        SearchEngine::contains_all_in(key_lower.as_str(), queries)
    }

    /// Whether the value holds every query, without regard to case. The
    /// queries are taken as they are: the caller has them in lower case.
    pub fn value_contains_all(value: &str, queries: &[String]) -> (r: bool)
        ensures
            r == contains_all(lowercase(value@), views(queries@)),
    {
        let value_lower = to_lowercase(value);
        SearchEngine::contains_all_in(value_lower.as_str(), queries)
    }
}

/// What a search under `search_type` for `queries` does: `found` are the
/// keys whose entry in `before` matches, each once, in the order of some
/// listing of the keys; the store `after` holds the same values, and has
/// counted the listing and one read for each key unless only keys are
/// matched.
pub open spec fn searched(
    before: StoreView,
    search_type: SearchType,
    queries: Seq<Seq<char>>,
    found: Seq<Seq<char>>,
    after: StoreView,
) -> bool {
    let lowered = lowercase_each(queries);
    let n = before.entries.dom().len();
    &&& found.no_duplicates()
    &&& exists|keys: Seq<Seq<char>>|
        lists_keys(keys, before) && found == select(keys, before.entries, search_type, lowered)
    &&& forall|key: Seq<char>|
        found.contains(key) <==> before.entries.contains_key(key) && entry_matches(
            search_type,
            key,
            before.lookup(key),
            lowered,
        )
    &&& same_values(after.entries, before.entries)
    &&& search_type == SearchType::Key ==> after == before.listed()
    &&& after.total_operations == bump_by(bump(before.total_operations), reads(search_type, n))
    &&& after.hit_count == bump_by(before.hit_count, reads(search_type, n))
    &&& after.miss_count == before.miss_count
}

/// Every listed key has an entry: all of them count as present.
pub proof fn lemma_present_count_all(
    keys: Seq<Seq<char>>,
    entries: Map<Seq<char>, (Seq<char>, u64)>,
)
    requires
        forall|i: int| 0 <= i < keys.len() ==> entries.contains_key(#[trigger] keys[i]),
    ensures
        present_count(keys, entries) == keys.len(),
    decreases keys.len(),
{
    if keys.len() > 0 {
        assert(entries.contains_key(keys[keys.len() - 1]));
        assert forall|i: int| 0 <= i < keys.drop_last().len() implies entries.contains_key(
            #[trigger] keys.drop_last()[i],
        ) by {
            assert(keys.drop_last()[i] == keys[i]);
        }
        lemma_present_count_all(keys.drop_last(), entries);
    }
}

impl SearchEngine {
    /// Decides whether an entry matches, given its key and its value in
    /// lower case; `None` stands for an entry without a value. The queries
    /// are taken as they are.
    pub fn matches_cased(
        search_type: SearchType,
        key_lower: &str,
        value_lower: &Option<String>,
        queries: &[String],
    ) -> (r: bool)
        ensures
            r == cased_entry_matches(
                search_type,
                key_lower@,
                match *value_lower {
                    Some(v) => Some(v@),
                    None => None,
                },
                views(queries@),
            ),
    {
        match search_type {
            SearchType::Key => SearchEngine::contains_all_in(key_lower, queries),
            SearchType::Value => match value_lower {
                Some(value) => SearchEngine::contains_all_in(value.as_str(), queries),
                None => false,
            },
            SearchType::KeyOrValue => {
                let key_matches = SearchEngine::contains_all_in(key_lower, queries);
                let value_matches = match value_lower {
                    Some(value) => SearchEngine::contains_all_in(value.as_str(), queries),
                    None => false,
                };
                key_matches || value_matches
            },
            SearchType::KeyAndValue => {
                let key_matches = SearchEngine::contains_all_in(key_lower, queries);
                let value_matches = match value_lower {
                    Some(value) => SearchEngine::contains_all_in(value.as_str(), queries),
                    None => false,
                };
                key_matches && value_matches
            },
        }
    }

    /// Decides whether the entry under `key` matches. Unless only keys are
    /// matched, the value is read from the store, which counts as a read.
    pub fn entry_matches(
        store: &mut Sodium,
        search_type: SearchType,
        key: &str,
        queries: &[String],
    ) -> (r: bool)
        ensures
            r == entry_matches(
                search_type,
                key@,
                old(store)@.lookup(key@),
                views(queries@),
            ),
            search_type == SearchType::Key ==> final(store)@ == old(store)@,
            search_type != SearchType::Key ==> exists|now: u64|
                final(store)@ == old(store)@.get(key@, now),
    {
        let key_lower = to_lowercase(key);
        let value_lower = match search_type {
            SearchType::Key => None,
            _ => match store.get(key) {
                Ok(value) => Some(to_lowercase(value.as_str())),
                Err(_) => None,
            },
        };
        SearchEngine::matches_cased(search_type, key_lower.as_str(), &value_lower, queries)
    }

    /// Picks from `keys`, in order, the keys whose entry matches. The queries
    /// are taken as they are: the caller has them in lower case.
    pub fn select_matching(
        store: &mut Sodium,
        keys: &Vec<String>,
        search_type: SearchType,
        queries: &[String],
    ) -> (found: Vec<String>)
        ensures
            views(found@) == select(
                views(keys@),
                old(store)@.entries,
                search_type,
                views(queries@),
            ),
            same_values(final(store)@.entries, old(store)@.entries),
            search_type == SearchType::Key ==> final(store)@ == old(store)@,
            final(store)@.total_operations == bump_by(
                old(store)@.total_operations,
                reads(search_type, keys@.len()),
            ),
            final(store)@.hit_count == bump_by(
                old(store)@.hit_count,
                reads(search_type, present_count(views(keys@), old(store)@.entries)),
            ),
            final(store)@.miss_count == bump_by(
                old(store)@.miss_count,
                reads(
                    search_type,
                    (keys@.len() - present_count(views(keys@), old(store)@.entries)) as nat,
                ),
            ),
    {
        let mut found: Vec<String> = Vec::new();
        let mut i: usize = 0;
        let ghost before = store@;
        let ghost all = views(keys@);
        while i < keys.len()
            invariant
                i <= keys.len(),
                all == views(keys@),
                views(found@) == select(
                    all.subrange(0, i as int),
                    before.entries,
                    search_type,
                    views(queries@),
                ),
                same_values(store@.entries, before.entries),
                search_type == SearchType::Key ==> store@ == before,
                present_count(all.subrange(0, i as int), before.entries) <= i,
                store@.total_operations == bump_by(
                    before.total_operations,
                    reads(search_type, i as nat),
                ),
                store@.hit_count == bump_by(
                    before.hit_count,
                    reads(search_type, present_count(all.subrange(0, i as int), before.entries)),
                ),
                store@.miss_count == bump_by(
                    before.miss_count,
                    reads(
                        search_type,
                        (i - present_count(all.subrange(0, i as int), before.entries)) as nat,
                    ),
                ),
            decreases keys.len() - i,
        {
            let ghost current = store@;
            let matched = SearchEngine::entry_matches(store, search_type, keys[i].as_str(), queries);
            proof {
                let key = keys@[i as int]@;
                assert(all.subrange(0, i + 1).drop_last() =~= all.subrange(0, i as int));
                assert(all.subrange(0, i + 1).last() == key);
                assert(current.lookup(key) == value_in(before.entries, key));
                if search_type != SearchType::Key {
                    let now = choose|now: u64| store@ == current.get(key, now);
                    assert(store@.entries.dom() =~= before.entries.dom());
                    assert forall|k: Seq<char>| store@.entries.contains_key(k) implies (
                    #[trigger] store@.entries[k]).0 == before.entries[k].0 by {
                        assert(current.entries[k].0 == before.entries[k].0);
                    }
                }
            }
            if matched {
                push_string(&mut found, keys[i].clone());
            }
            i += 1;
        }
        assert(all.subrange(0, i as int) =~= all);
        found
    }

    /// Finds the keys whose entry matches every query under the given mode,
    /// in the order in which the store lists its keys.
    pub fn search_multiple(store: &mut Sodium, search_type: SearchType, queries: &[String]) -> (r:
        Result<Vec<String>, CacheError>)
        ensures
            r matches Ok(found) && searched(
                old(store)@,
                search_type,
                views(queries@),
                views(found@),
                final(store)@,
            ),
    {
        let mut queries_lower: Vec<String> = Vec::new();
        let mut q: usize = 0;
        while q < queries.len()
            invariant
                q <= queries.len(),
                views(queries_lower@) == lowercase_each(views(queries@)).subrange(0, q as int),
            decreases queries.len() - q,
        {
            let lower = to_lowercase(queries[q].as_str());
            proof {
                let target = lowercase_each(views(queries@));
                assert(target.subrange(0, q + 1) =~= target.subrange(0, q as int).push(lower@));
            }
            push_string(&mut queries_lower, lower);
            q += 1;
        }
        proof {
            let target = lowercase_each(views(queries@));
            assert(target.subrange(0, q as int) =~= target);
        }
        let all_keys = match store.keys() {
            Ok(keys) => keys,
            Err(e) => {
                return Err(e);
            },
        };
        let ghost listed = views(all_keys@);
        let ghost entries = old(store)@.entries;
        let ghost lowered = lowercase_each(views(queries@));
        let found = SearchEngine::select_matching(
            store,
            &all_keys,
            search_type,
            queries_lower.as_slice(),
        );
        proof {
            assert forall|i: int| 0 <= i < listed.len() implies entries.contains_key(
                #[trigger] listed[i],
            ) by {
                assert(listed.to_set().contains(listed[i]));
            }
            lemma_present_count_all(listed, entries);
            listed.unique_seq_to_set();
            lemma_select_no_duplicates(listed, entries, search_type, lowered);
            assert forall|key: Seq<char>|
                views(found@).contains(key) <==> entries.contains_key(key) && entry_matches(
                    search_type,
                    key,
                    value_in(entries, key),
                    lowered,
                ) by {
                lemma_select_contains(listed, entries, search_type, lowered, key);
                assert(listed.contains(key) <==> listed.to_set().contains(key));
            }
        }
        Ok(found)
    }
}

/// Whatever the mode and the queries, a search finds only keys that the
/// store holds.
pub proof fn law_search_finds_keys(
    before: StoreView,
    search_type: SearchType,
    queries: Seq<Seq<char>>,
    found: Seq<Seq<char>>,
    after: StoreView,
)
    requires
        searched(before, search_type, queries, found, after),
    ensures
        found.to_set().subset_of(before.keys()),
{
    assert forall|key: Seq<char>| found.to_set().contains(key) implies before.keys().contains(
        key,
    ) by {
        assert(found.contains(key));
    }
}

/// A search that matches keys finds exactly the keys of the store in which,
/// in lower case, every query stands in lower case.
pub proof fn law_search_by_key(
    before: StoreView,
    queries: Seq<Seq<char>>,
    found: Seq<Seq<char>>,
    after: StoreView,
    key: Seq<char>,
)
    requires
        searched(before, SearchType::Key, queries, found, after),
    ensures
        found.contains(key) <==> before.keys().contains(key) && forall|i: int|
            0 <= i < queries.len() ==> contains_seq(lowercase(key), lowercase(#[trigger] queries[i])),
{
    let lowered = lowercase_each(queries);
    assert(found.contains(key) <==> before.keys().contains(key) && contains_all(
        lowercase(key),
        lowered,
    ));
    if contains_all(lowercase(key), lowered) {
        assert forall|i: int| 0 <= i < queries.len() implies contains_seq(
            lowercase(key),
            lowercase(#[trigger] queries[i]),
        ) by {
            assert(lowered[i] == lowercase(queries[i]));
        }
    }
    if forall|i: int|
        0 <= i < queries.len() ==> contains_seq(lowercase(key), lowercase(#[trigger] queries[i])) {
        assert forall|i: int| 0 <= i < lowered.len() implies contains_seq(
            lowercase(key),
            #[trigger] lowered[i],
        ) by {
            assert(lowered[i] == lowercase(queries[i]));
        }
    }
}

} // verus!
