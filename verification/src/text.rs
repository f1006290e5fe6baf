//! Character-sequence primitives shared by the command grammar, the search
//! engine and the command-line front end.
//!
//! Every string is modelled by its view, a `Seq<char>`. The executable
//! helpers decode a `&str` once into a `Vec<char>`, work on indices, and
//! build owned `String`s for their results.

use vstd::prelude::*;
use vstd::string::*;

verus! {

/// `String::push` appends one character to the end of the string.
pub assume_specification[ String::push ](s: &mut String, ch: char)
    ensures
        final(s)@ == old(s)@.push(ch),
;

/// The lower-case form of a string under the full Unicode case mapping.
pub uninterp spec fn lowercase(s: Seq<char>) -> Seq<char>;

/// The upper-case form of a string under the full Unicode case mapping.
pub uninterp spec fn uppercase(s: Seq<char>) -> Seq<char>;

/// Calls `str::to_lowercase`. The result is a function of the input alone;
/// the contract gives it the name [`lowercase`] and claims nothing else.
#[verifier::external_body]
pub(crate) fn to_lowercase(s: &str) -> (r: String)
    ensures
        r@ == lowercase(s@),
{
    s.to_lowercase()
}

/// Calls `str::to_uppercase`. The result is a function of the input alone;
/// the contract gives it the name [`uppercase`] and claims nothing else.
#[verifier::external_body]
pub(crate) fn to_uppercase(s: &str) -> (r: String)
    ensures
        r@ == uppercase(s@),
{
    s.to_uppercase()
}

/// The code points with the Unicode `White_Space` property.
pub open spec fn is_whitespace(c: char) -> bool {
    let n = c as u32;
    ||| 0x09 <= n <= 0x0D
    ||| n == 0x20
    ||| n == 0x85
    ||| n == 0xA0
    ||| n == 0x1680
    ||| 0x2000 <= n <= 0x200A
    ||| n == 0x2028
    ||| n == 0x2029
    ||| n == 0x202F
    ||| n == 0x205F
    ||| n == 0x3000
}

/// ASCII letters and digits.
pub open spec fn is_ascii_alphanumeric(c: char) -> bool {
    ||| 'a' <= c <= 'z'
    ||| 'A' <= c <= 'Z'
    ||| '0' <= c <= '9'
}

/// Whether `c` is white space.
pub fn char_is_whitespace(c: char) -> (b: bool)
    ensures
        b == is_whitespace(c),
{
    let n: u32 = c as u32;
    (0x09 <= n && n <= 0x0D) || n == 0x20 || n == 0x85 || n == 0xA0 || n == 0x1680 || (0x2000 <= n
        && n <= 0x200A) || n == 0x2028 || n == 0x2029 || n == 0x202F || n == 0x205F || n == 0x3000
}

/// Whether `c` is an ASCII letter or digit.
pub fn char_is_ascii_alphanumeric(c: char) -> (b: bool)
    ensures
        b == is_ascii_alphanumeric(c),
{
    (c >= 'a' && c <= 'z') || (c >= 'A' && c <= 'Z') || (c >= '0' && c <= '9')
}

/// The first index at or after `i` whose character is not white space, or the
/// length of `s` when there is none.
pub open spec fn skip_whitespace(s: Seq<char>, i: int) -> int
    decreases s.len() - i,
{
    if 0 <= i < s.len() && is_whitespace(s[i]) {
        skip_whitespace(s, i + 1)
    } else {
        i
    }
}

/// The end of the longest prefix of `s[..j]` that does not end in white
/// space.
pub open spec fn skip_whitespace_back(s: Seq<char>, j: int) -> int
    decreases j,
{
    if 0 < j <= s.len() && is_whitespace(s[j - 1]) {
        skip_whitespace_back(s, j - 1)
    } else {
        j
    }
}

/// Where the trimmed part of `s` begins.
pub open spec fn trim_start_index(s: Seq<char>) -> int {
    skip_whitespace(s, 0)
}

/// Where the trimmed part of `s` ends. For a string of white space alone this
/// is the same index as [`trim_start_index`].
pub open spec fn trim_end_index(s: Seq<char>) -> int {
    let a = trim_start_index(s);
    let b = skip_whitespace_back(s, s.len() as int);
    if b < a {
        a
    } else {
        b
    }
}

/// `s` without its leading and trailing white space.
pub open spec fn trim(s: Seq<char>) -> Seq<char> {
    s.subrange(trim_start_index(s), trim_end_index(s))
}

/// What [`skip_whitespace`] finds: white space alone stands from `i` up to
/// the result, and none at the result.
pub proof fn lemma_skip_whitespace(s: Seq<char>, i: int)
    requires
        0 <= i <= s.len(),
    ensures
        i <= skip_whitespace(s, i) <= s.len(),
        forall|k: int| i <= k < skip_whitespace(s, i) ==> is_whitespace(#[trigger] s[k]),
        skip_whitespace(s, i) < s.len() ==> !is_whitespace(s[skip_whitespace(s, i)]),
    decreases s.len() - i,
{
    if i < s.len() && is_whitespace(s[i]) {
        lemma_skip_whitespace(s, i + 1);
    }
}

/// What [`skip_whitespace_back`] finds: white space alone stands from the
/// result up to `j`, and none just before the result.
pub proof fn lemma_skip_whitespace_back(s: Seq<char>, j: int)
    requires
        0 <= j <= s.len(),
    ensures
        0 <= skip_whitespace_back(s, j) <= j,
        forall|k: int| skip_whitespace_back(s, j) <= k < j ==> is_whitespace(#[trigger] s[k]),
        skip_whitespace_back(s, j) > 0 ==> !is_whitespace(s[skip_whitespace_back(s, j) - 1]),
    decreases j,
{
    if 0 < j && is_whitespace(s[j - 1]) {
        lemma_skip_whitespace_back(s, j - 1);
    }
}

/// What trimming means: the result is the stretch of `s` between two
/// indices, everything outside it is white space, and it neither starts nor
/// ends with white space.
pub proof fn lemma_trim(s: Seq<char>)
    ensures
        0 <= trim_start_index(s) <= trim_end_index(s) <= s.len(),
        trim(s).len() == trim_end_index(s) - trim_start_index(s),
        forall|k: int| 0 <= k < trim_start_index(s) ==> is_whitespace(#[trigger] s[k]),
        forall|k: int| trim_end_index(s) <= k < s.len() ==> is_whitespace(#[trigger] s[k]),
        trim(s).len() > 0 ==> !is_whitespace(trim(s).first()) && !is_whitespace(trim(s).last()),
{
    lemma_skip_whitespace(s, 0);
    lemma_skip_whitespace_back(s, s.len() as int);
}

/// Decodes a string into its characters.
pub fn to_chars(s: &str) -> (v: Vec<char>)
    ensures
        v@ == s@,
{
    let mut v: Vec<char> = Vec::new();
    for c in it: s.chars()
        invariant
            v@ == it.seq().take(it.index()),
            it.seq() == s@,
    {
        v.push(c);
    }
    v
}

/// Copies the characters `v[from..to]` into a new string.
pub fn substring(v: &Vec<char>, from: usize, to: usize) -> (s: String)
    requires
        from <= to <= v.len(),
    ensures
        s@ == v@.subrange(from as int, to as int),
{
    let mut s = String::new();
    let mut i: usize = from;
    while i < to
        invariant
            from <= i <= to <= v.len(),
            s@ == v@.subrange(from as int, i as int),
        decreases to - i,
    {
        s.push(v[i]);
        i += 1;
    }
    s
}

/// The bounds of the trimmed part of `v`.
pub fn trim_bounds(v: &Vec<char>) -> (r: (usize, usize))
    ensures
        r.0 == trim_start_index(v@),
        r.1 == trim_end_index(v@),
        r.0 <= r.1 <= v.len(),
{
    let n = v.len();
    let mut a: usize = 0;
    while a < n && char_is_whitespace(v[a])
        invariant
            a <= n == v.len(),
            skip_whitespace(v@, 0) == skip_whitespace(v@, a as int),
        decreases n - a,
    {
        a += 1;
    }
    let mut b: usize = n;
    while b > a && char_is_whitespace(v[b - 1])
        invariant
            a <= b <= n == v.len(),
            skip_whitespace_back(v@, n as int) == skip_whitespace_back(v@, b as int),
        decreases b,
    {
        b -= 1;
    }
    proof {
        // When the backward scan stops at `a` on white space, its end lies
        // before `a`, and the trimmed part is empty.
        lemma_skip_whitespace_back(v@, b as int);
    }
    (a, b)
}

/// `s` without its leading and trailing white space, as a new string.
pub fn trimmed(s: &str) -> (r: String)
    ensures
        r@ == trim(s@),
{
    let v = to_chars(s);
    let (a, b) = trim_bounds(&v);
    substring(&v, a, b)
}

/// The views of a sequence of strings.
pub open spec fn views(v: Seq<String>) -> Seq<Seq<char>> {
    v.map_values(|s: String| s@)
}

/// Appends a string to a list of strings.
pub fn push_string(out: &mut Vec<String>, s: String)
    ensures
        final(out)@ == old(out)@.push(s),
        views(final(out)@) == views(old(out)@).push(s@),
{
    out.push(s);
    assert(views(out@) =~= views(old(out)@).push(s@));
}

/// Copies the characters `v[from..to]` into a new vector.
pub fn subvec(v: &Vec<char>, from: usize, to: usize) -> (r: Vec<char>)
    requires
        from <= to <= v.len(),
    ensures
        r@ == v@.subrange(from as int, to as int),
{
    let mut r: Vec<char> = Vec::new();
    let mut i: usize = from;
    while i < to
        invariant
            from <= i <= to <= v.len(),
            r@ == v@.subrange(from as int, i as int),
        decreases to - i,
    {
        r.push(v[i]);
        i += 1;
    }
    r
}

/// The trimmed form of `v[from..to]`, as a new string.
pub fn trimmed_range(v: &Vec<char>, from: usize, to: usize) -> (r: String)
    requires
        from <= to <= v.len(),
    ensures
        r@ == trim(v@.subrange(from as int, to as int)),
{
    let piece = subvec(v, from, to);
    let (a, b) = trim_bounds(&piece);
    substring(&piece, a, b)
}

/// Whether two strings hold the same characters.
pub fn str_eq(a: &str, b: &str) -> (r: bool)
    ensures
        r == (a@ == b@),
{
    let x = to_chars(a);
    let y = to_chars(b);
    if x.len() != y.len() {
        return false;
    }
    let n = x.len();
    let mut i: usize = 0;
    while i < n
        invariant
            i <= n == x.len() == y.len(),
            x@ == a@,
            y@ == b@,
            forall|j: int| 0 <= j < i ==> x@[j] == y@[j],
        decreases n - i,
    {
        if x[i] != y[i] {
            return false;
        }
        i += 1;
    }
    assert(x@ =~= y@);
    true
}

/// The first index at or after `i` that holds `c`, or the length of `s` when
/// there is none.
pub open spec fn char_scan(s: Seq<char>, c: char, i: int) -> int
    decreases s.len() - i,
{
    if i < 0 || i >= s.len() {
        s.len() as int
    } else if s[i] == c {
        i
    } else {
        char_scan(s, c, i + 1)
    }
}

/// The last index before `j` that holds `c`, or `-1` when there is none.
pub open spec fn char_scan_back(s: Seq<char>, c: char, j: int) -> int
    decreases j,
{
    if j <= 0 || j > s.len() {
        -1
    } else if s[j - 1] == c {
        j - 1
    } else {
        char_scan_back(s, c, j - 1)
    }
}

/// What [`char_scan`] finds: `c` stands nowhere from `i` up to the result,
/// and at the result unless that is the end.
pub proof fn lemma_char_scan(s: Seq<char>, c: char, i: int)
    requires
        0 <= i <= s.len(),
    ensures
        i <= char_scan(s, c, i) <= s.len(),
        forall|k: int| i <= k < char_scan(s, c, i) ==> #[trigger] s[k] != c,
        char_scan(s, c, i) < s.len() ==> s[char_scan(s, c, i)] == c,
    decreases s.len() - i,
{
    if i < s.len() && s[i] != c {
        lemma_char_scan(s, c, i + 1);
    }
}

/// What [`char_scan_back`] finds: `c` stands nowhere after the result and
/// before `j`, and at the result unless that is `-1`.
pub proof fn lemma_char_scan_back(s: Seq<char>, c: char, j: int)
    requires
        0 <= j <= s.len(),
    ensures
        -1 <= char_scan_back(s, c, j) < j,
        forall|k: int| char_scan_back(s, c, j) < k < j ==> #[trigger] s[k] != c,
        char_scan_back(s, c, j) >= 0 ==> s[char_scan_back(s, c, j)] == c,
    decreases j,
{
    if j > 0 && s[j - 1] != c {
        lemma_char_scan_back(s, c, j - 1);
    }
}

/// Whether `p` stands in `s` at index `i`.
pub open spec fn has_at(s: Seq<char>, i: int, p: Seq<char>) -> bool {
    &&& 0 <= i
    &&& i + p.len() <= s.len()
    &&& s.subrange(i, i + p.len()) == p
}

/// Whether `p` stands somewhere in `s`.
pub open spec fn contains_seq(s: Seq<char>, p: Seq<char>) -> bool {
    exists|i: int| has_at(s, i, p)
}

/// The words of `s[start..]`, where the word that began at `start` has been
/// read up to `i` without meeting white space.
pub open spec fn words_scan(s: Seq<char>, start: int, i: int) -> Seq<Seq<char>>
    decreases s.len() - i,
{
    let word = if start < i {
        seq![s.subrange(start, i)]
    } else {
        seq![]
    };
    if i < 0 || i >= s.len() {
        word
    } else if is_whitespace(s[i]) {
        word + words_scan(s, i + 1, i + 1)
    } else {
        words_scan(s, start, i + 1)
    }
}

/// The maximal stretches of `s` that hold no white space, in order.
pub open spec fn words(s: Seq<char>) -> Seq<Seq<char>> {
    words_scan(s, 0, 0)
}

/// The parts in order with `sep` between each two neighbours.
pub open spec fn join(parts: Seq<Seq<char>>, sep: Seq<char>) -> Seq<char>
    decreases parts.len(),
{
    if parts.len() == 0 {
        seq![]
    } else if parts.len() == 1 {
        parts[0]
    } else {
        join(parts.drop_last(), sep) + sep + parts.last()
    }
}

/// The character that writes the digit `d`.
pub open spec fn digit(d: nat) -> char {
    if d == 0 {
        '0'
    } else if d == 1 {
        '1'
    } else if d == 2 {
        '2'
    } else if d == 3 {
        '3'
    } else if d == 4 {
        '4'
    } else if d == 5 {
        '5'
    } else if d == 6 {
        '6'
    } else if d == 7 {
        '7'
    } else if d == 8 {
        '8'
    } else {
        '9'
    }
}

/// `n` written in decimal, without leading zeros.
pub open spec fn decimal(n: nat) -> Seq<char>
    decreases n,
{
    if n < 10 {
        seq![digit(n)]
    } else {
        decimal(n / 10).push(digit(n % 10))
    }
}

/// The character that writes the digit `d`.
fn digit_char(d: usize) -> (c: char)
    requires
        d < 10,
    ensures
        c == digit(d as nat),
{
    if d == 0 {
        '0'
    } else if d == 1 {
        '1'
    } else if d == 2 {
        '2'
    } else if d == 3 {
        '3'
    } else if d == 4 {
        '4'
    } else if d == 5 {
        '5'
    } else if d == 6 {
        '6'
    } else if d == 7 {
        '7'
    } else if d == 8 {
        '8'
    } else {
        '9'
    }
}

/// Writes `n` in decimal.
pub fn decimal_string(n: usize) -> (s: String)
    ensures
        s@ == decimal(n as nat),
    decreases n,
{
    if n < 10 {
        let mut s = String::new();
        s.push(digit_char(n));
        s
    } else {
        let mut s = decimal_string(n / 10);
        s.push(digit_char(n % 10));
        s
    }
}

/// The first index at or after `from` that holds `c`, or the length of `v`.
pub fn find_char_from(v: &Vec<char>, c: char, from: usize) -> (r: usize)
    requires
        from <= v.len(),
    ensures
        r == char_scan(v@, c, from as int),
        from <= r <= v.len(),
{
    let n = v.len();
    let mut i: usize = from;
    while i < n && v[i] != c
        invariant
            from <= i <= n == v.len(),
            char_scan(v@, c, from as int) == char_scan(v@, c, i as int),
        decreases n - i,
    {
        i += 1;
    }
    i
}

/// The last index before `to` that holds `c`, if there is one.
pub fn find_char_back(v: &Vec<char>, c: char, to: usize) -> (r: Option<usize>)
    requires
        to <= v.len(),
    ensures
        match r {
            Some(i) => i == char_scan_back(v@, c, to as int),
            None => char_scan_back(v@, c, to as int) == -1,
        },
{
    let mut j: usize = to;
    while j > 0 && v[j - 1] != c
        invariant
            j <= to <= v.len(),
            char_scan_back(v@, c, to as int) == char_scan_back(v@, c, j as int),
        decreases j,
    {
        j -= 1;
    }
    if j == 0 {
        None
    } else {
        Some(j - 1)
    }
}

/// Whether `p` stands in `v` at index `i`.
pub fn has_at_index(v: &Vec<char>, i: usize, p: &Vec<char>) -> (r: bool)
    requires
        i <= v.len(),
    ensures
        r == has_at(v@, i as int, p@),
{
    let m = p.len();
    if m > v.len() - i {
        return false;
    }
    let mut j: usize = 0;
    while j < m
        invariant
            j <= m == p.len(),
            i + m <= v.len(),
            forall|k: int| 0 <= k < j ==> v@[i + k] == p@[k],
        decreases m - j,
    {
        if v[i + j] != p[j] {
            assert(v@.subrange(i as int, i + m)[j as int] != p@[j as int]);
            return false;
        }
        j += 1;
    }
    assert(v@.subrange(i as int, i + m) =~= p@);
    true
}

/// Cuts a string into its words.
pub fn split_words(v: &Vec<char>) -> (r: Vec<String>)
    ensures
        views(r@) == words(v@),
{
    let n = v.len();
    let mut out: Vec<String> = Vec::new();
    let mut start: usize = 0;
    let mut i: usize = 0;
    while i < n
        invariant
            start <= i <= n == v.len(),
            words(v@) == views(out@) + words_scan(v@, start as int, i as int),
        decreases n - i,
    {
        if char_is_whitespace(v[i]) {
            if start < i {
                let w = substring(v, start, i);
                proof {
                    let f = v@.subrange(start as int, i as int);
                    assert(views(out@) + (seq![f] + words_scan(v@, i + 1, i + 1)) =~= views(
                        out@,
                    ).push(f) + words_scan(v@, i + 1, i + 1));
                }
                push_string(&mut out, w);
            } else {
                assert(views(out@) + (Seq::<Seq<char>>::empty() + words_scan(v@, i + 1, i + 1))
                    =~= views(out@) + words_scan(v@, i + 1, i + 1));
            }
            start = i + 1;
        }
        i += 1;
    }
    if start < n {
        let w = substring(v, start, n);
        proof {
            let f = v@.subrange(start as int, n as int);
            assert(views(out@) + seq![f] =~= views(out@).push(f));
        }
        push_string(&mut out, w);
    } else {
        assert(views(out@) + Seq::<Seq<char>>::empty() =~= views(out@));
    }
    out
}

/// Joins `parts[from..]` with `sep` between each two neighbours.
pub fn join_from(parts: &Vec<String>, from: usize, sep: &str) -> (r: String)
    requires
        from <= parts.len(),
    ensures
        r@ == join(views(parts@).subrange(from as int, parts.len() as int), sep@),
{
    let n = parts.len();
    let mut s = String::new();
    let mut i: usize = from;
    while i < n
        invariant
            from <= i <= n == parts.len(),
            s@ == join(views(parts@).subrange(from as int, i as int), sep@),
        decreases n - i,
    {
        proof {
            let before = views(parts@).subrange(from as int, i as int);
            let after = views(parts@).subrange(from as int, i + 1);
            assert(after.drop_last() =~= before);
            assert(after.last() == parts@[i as int]@);
            if i > from {
                assert(join(after, sep@) == join(before, sep@) + sep@ + parts@[i as int]@);
            } else {
                assert(Seq::<char>::empty() + parts@[i as int]@ =~= parts@[i as int]@);
            }
        }
        if i > from {
            s.append(sep);
        }
        s.append(parts[i].as_str());
        i += 1;
    }
    s
}

/// Whether `needle` stands somewhere in `hay`.
pub fn contains_chars(hay: &Vec<char>, needle: &Vec<char>) -> (r: bool)
    ensures
        r == contains_seq(hay@, needle@),
{
    let n = hay.len();
    let m = needle.len();
    if m > n {
        assert forall|i: int| !has_at(hay@, i, needle@) by {}
        return false;
    }
    if m == 0 {
        assert(hay@.subrange(0, 0) =~= needle@);
        assert(has_at(hay@, 0, needle@));
        return true;
    }
    let last = n - m;
    let mut i: usize = 0;
    while i <= last
        invariant
            i <= last + 1,
            last == n - m,
            0 < m <= n == hay.len(),
            m == needle.len(),
            forall|k: int| 0 <= k < i ==> !has_at(hay@, k, needle@),
        decreases last + 1 - i,
    {
        if has_at_index(hay, i, needle) {
            return true;
        }
        i += 1;
    }
    assert forall|k: int| !has_at(hay@, k, needle@) by {}
    false
}

/// A string that neither starts nor ends with white space is its own
/// trimmed form.
pub proof fn lemma_trim_is_identity(s: Seq<char>)
    requires
        s.len() > 0,
        !is_whitespace(s.first()),
        !is_whitespace(s.last()),
    ensures
        trim(s) == s,
{
    assert(skip_whitespace(s, 0) == 0);
    assert(skip_whitespace_back(s, s.len() as int) == s.len());
    assert(s.subrange(0, s.len() as int) =~= s);
}

/// One space before a string that neither starts nor ends with white space
/// is trimmed away.
pub proof fn lemma_trim_drops_leading_space(s: Seq<char>)
    requires
        s.len() > 0,
        !is_whitespace(s.first()),
        !is_whitespace(s.last()),
    ensures
        trim(seq![' '] + s) == s,
{
    let t = seq![' '] + s;
    assert(t[0] == ' ');
    assert(t[1] == s[0]);
    assert(t[t.len() - 1] == s.last());
    assert(skip_whitespace(t, 1) == 1);
    assert(skip_whitespace(t, 0) == 1);
    assert(skip_whitespace_back(t, t.len() as int) == t.len());
    assert(t.subrange(1, t.len() as int) =~= s);
}

/// A string whose last character is not white space is not trimmed to
/// nothing.
pub proof fn lemma_trim_keeps_something(s: Seq<char>)
    requires
        s.len() > 0,
        !is_whitespace(s.last()),
    ensures
        trim(s).len() > 0,
{
    lemma_skip_whitespace(s, 0);
    assert(skip_whitespace_back(s, s.len() as int) == s.len());
    if skip_whitespace(s, 0) == s.len() {
        assert(is_whitespace(s[s.len() - 1]));
    }
}

/// Trimming what is trimmed changes nothing.
pub proof fn lemma_trim_is_idempotent(s: Seq<char>)
    ensures
        trim(trim(s)) == trim(s),
{
    lemma_trim(s);
    if trim(s).len() > 0 {
        lemma_trim_is_identity(trim(s));
    } else {
        assert(trim(trim(s)) =~= trim(s));
    }
}

} // verus!
