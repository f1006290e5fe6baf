//! Node identifiers: seven characters drawn at random from the lower-case
//! letters and the digits.

use vstd::prelude::*;
use vstd::string::*;
use rand::Rng;
use crate::text::to_chars;

verus! {

/// How many characters a node identifier has.
pub const NODE_ID_LENGTH: usize = 7;

/// The characters a node identifier is drawn from.
pub open spec fn charset() -> Seq<char> {
    "abcdefghijklmnopqrstuvwxyz0123456789"@
}

/// Whether `c` is a lower-case letter or a digit.
pub open spec fn is_node_id_char(c: char) -> bool {
    ('a' <= c <= 'z') || ('0' <= c <= '9')
}

/// Whether `id` has the shape of a node identifier.
pub open spec fn is_node_id(id: Seq<char>) -> bool {
    &&& id.len() == NODE_ID_LENGTH
    &&& forall|i: int| 0 <= i < id.len() ==> is_node_id_char(#[trigger] id[i])
}

/// Calls `Rng::gen_range` on the thread's generator, with the range from 0
/// up to `bound`, which must not be empty: the result lies in that range.
#[verifier::external_body]
fn random_index(bound: usize) -> (i: usize)
    requires
        bound > 0,
    ensures
        i < bound,
{
    rand::thread_rng().gen_range(0..bound)
}

/// How many characters a node identifier is drawn from.
pub const CHARSET_LENGTH: usize = 36;

/// The identifier that `picks` selects from the character set: its
/// character at each place is the character of the set at the index picked
/// for that place.
pub open spec fn node_id_of(picks: Seq<int>) -> Seq<char> {
    Seq::new(picks.len(), |i: int| charset()[picks[i]])
}

/// The indices as mathematical integers.
pub open spec fn as_ints(picks: Seq<usize>) -> Seq<int> {
    picks.map_values(|p: usize| p as int)
}

/// Whether `picks` are what a node identifier is built from: as many
/// indices as an identifier has characters, each an index into the
/// character set.
pub open spec fn are_picks(picks: Seq<int>) -> bool {
    &&& picks.len() == NODE_ID_LENGTH
    &&& forall|i: int| 0 <= i < picks.len() ==> 0 <= #[trigger] picks[i] < CHARSET_LENGTH
}

/// The character set has as many characters as its length says, and each
/// is a lower-case letter or a digit.
pub proof fn lemma_charset()
    ensures
        charset().len() == CHARSET_LENGTH,
        forall|k: int| 0 <= k < CHARSET_LENGTH ==> is_node_id_char(#[trigger] charset()[k]),
{
    reveal_strlit("abcdefghijklmnopqrstuvwxyz0123456789");
}

/// What is built from picks has the shape of a node identifier.
pub proof fn lemma_picked_id_is_node_id(picks: Seq<int>)
    requires
        are_picks(picks),
    ensures
        is_node_id(node_id_of(picks)),
{
    lemma_charset();
    assert forall|i: int| 0 <= i < node_id_of(picks).len() implies is_node_id_char(
        #[trigger] node_id_of(picks)[i],
    ) by {
        assert(0 <= picks[i] < CHARSET_LENGTH);
    }
}

/// Builds the identifier that `picks` selects from the character set.
pub fn node_id_from_picks(picks: &Vec<usize>) -> (id: String)
    requires
        forall|i: int| 0 <= i < picks@.len() ==> #[trigger] picks@[i] < CHARSET_LENGTH,
    ensures
        id@ == node_id_of(as_ints(picks@)),
{
    let letters = to_chars("abcdefghijklmnopqrstuvwxyz0123456789");
    proof {
        lemma_charset();
    }
    let mut id = String::new();
    let mut i: usize = 0;
    while i < picks.len()
        invariant
            i <= picks.len(),
            letters@ == charset(),
            letters@.len() == CHARSET_LENGTH,
            forall|k: int| 0 <= k < picks@.len() ==> #[trigger] picks@[k] < CHARSET_LENGTH,
            id@.len() == i,
            forall|j: int| 0 <= j < i ==> #[trigger] id@[j] == charset()[picks@[j] as int],
        decreases picks.len() - i,
    {
        id.push(letters[picks[i]]);
        i += 1;
    }
    assert(id@ =~= node_id_of(as_ints(picks@)));
    id
}

/// Draws a fresh node identifier: an index into the character set is drawn
/// for each place, and the identifier is what these picks select.
pub fn generate_node_id() -> (id: String)
    ensures
        is_node_id(id@),
        exists|picks: Seq<int>| are_picks(picks) && id@ == node_id_of(picks),
{
    let mut picks: Vec<usize> = Vec::new();
    let mut i: usize = 0;
    while i < NODE_ID_LENGTH
        invariant
            i <= NODE_ID_LENGTH,
            picks@.len() == i,
            forall|k: int| 0 <= k < i ==> #[trigger] picks@[k] < CHARSET_LENGTH,
        decreases NODE_ID_LENGTH - i,
    {
        picks.push(random_index(CHARSET_LENGTH));
        i += 1;
    }
    let id = node_id_from_picks(&picks);
    proof {
        let drawn = as_ints(picks@);
        assert(are_picks(drawn)) by {
            assert forall|k: int| 0 <= k < drawn.len() implies 0 <= #[trigger] drawn[k]
                < CHARSET_LENGTH by {
                assert(picks@[k] < CHARSET_LENGTH);
            }
        }
        lemma_picked_id_is_node_id(drawn);
    }
    id
}

} // verus!
