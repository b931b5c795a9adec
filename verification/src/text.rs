//! Character-sequence helpers shared by the parsers: substring search,
//! prefix/suffix tests, trimming, lexicographic order, and conversions
//! between `String` and `Vec<char>`.
use vstd::prelude::*;

verus! {

broadcast use vstd::string::group_string_axioms;

// ---------------------------------------------------------------------------
// Conversions
// ---------------------------------------------------------------------------

/// Appends one character to a string (`String::push`).
#[verifier::external_body]
pub(crate) fn push_char(s: &mut String, c: char)
    ensures
        final(s)@ == old(s)@.push(c),
{
    s.push(c);
}

/// Appends a string slice to a string (`String::push_str`).
#[verifier::external_body]
pub(crate) fn push_str(s: &mut String, t: &str)
    ensures
        final(s)@ == old(s)@ + t@,
{
    s.push_str(t);
}

/// Builds a `String` holding exactly the given characters.
pub fn string_from_chars(v: &[char]) -> (r: String)
    ensures
        r@ == v@,
{
    let mut s = String::new();
    let mut i: usize = 0;
    while i < v.len()
        invariant
            i <= v.len(),
            s@ == v@.take(i as int),
        decreases v.len() - i,
    {
        push_char(&mut s, v[i]);
        assert(v@.take(i as int).push(v@[i as int]) =~= v@.take(i + 1));
        i += 1;
    }
    assert(v@.take(v.len() as int) =~= v@);
    s
}

/// The characters of a string slice, in order.
pub fn chars_of(s: &str) -> (r: Vec<char>)
    ensures
        r@ == s@,
{
    let mut v: Vec<char> = Vec::new();
    for c in it: s.chars()
        invariant
            it.seq() == s@,
            v@ == it.seq().take(it.index() as int),
    {
        v.push(c);
        assert(it.seq().take(it.index() as int).push(c) =~= it.seq().take(it.index() + 1));
    }
    assert(v@ =~= s@);
    v
}


// ---------------------------------------------------------------------------
// Substring search
// ---------------------------------------------------------------------------

/// `needle` occurs in `hay` starting at index `i`.
pub open spec fn occurs_at(hay: Seq<char>, needle: Seq<char>, i: int) -> bool {
    &&& 0 <= i
    &&& i + needle.len() <= hay.len()
    &&& hay.subrange(i, i + needle.len()) == needle
}

/// The first index at or after `i` where `needle` occurs in `hay`.
pub open spec fn find_from(hay: Seq<char>, needle: Seq<char>, i: int) -> Option<int>
    decreases hay.len() + 1 - i,
{
    if i < 0 || i + needle.len() > hay.len() {
        None
    } else if occurs_at(hay, needle, i) {
        Some(i)
    } else {
        find_from(hay, needle, i + 1)
    }
}

/// The first index where `needle` occurs in `hay` (what `str::find` returns).
pub open spec fn find(hay: Seq<char>, needle: Seq<char>) -> Option<int> {
    find_from(hay, needle, 0)
}

/// What `find_from` returns is an occurrence, and the first one.
pub proof fn lemma_find_from(hay: Seq<char>, needle: Seq<char>, i: int)
    requires
        0 <= i,
    ensures
        find_from(hay, needle, i) matches Some(k) ==> {
            &&& i <= k
            &&& occurs_at(hay, needle, k)
            &&& forall|j: int| i <= j < k ==> !occurs_at(hay, needle, j)
        },
        find_from(hay, needle, i) is None ==> forall|j: int| i <= j ==> !occurs_at(hay, needle, j),
    decreases hay.len() + 1 - i,
{
    if i + needle.len() > hay.len() {
    } else if occurs_at(hay, needle, i) {
    } else {
        lemma_find_from(hay, needle, i + 1);
    }
}

/// Searching from `pos + i` in `s` is searching from `i` in `s.skip(pos)`.
pub proof fn lemma_find_shift(s: Seq<char>, n: Seq<char>, pos: int, i: int)
    requires
        0 <= pos <= s.len(),
        0 <= i,
    ensures
        find_from(s, n, pos + i) == (match find_from(s.skip(pos), n, i) {
            Some(k) => Some(k + pos),
            None => None::<int>,
        }),
    decreases s.len() + 1 - (pos + i),
{
    let t = s.skip(pos);
    if pos + i + n.len() > s.len() {
    } else {
        assert(s.subrange(pos + i, pos + i + n.len()) =~= t.subrange(i, i + n.len()));
        if !occurs_at(s, n, pos + i) {
            lemma_find_shift(s, n, pos, i + 1);
        }
    }
}

/// Whether `needle` occurs in `hay` at index `i`.
pub fn occurs_at_exec(hay: &[char], needle: &[char], i: usize) -> (r: bool)
    ensures
        r == occurs_at(hay@, needle@, i as int),
{
    if i > hay.len() || needle.len() > hay.len() - i {
        return false;
    }
    let mut k: usize = 0;
    while k < needle.len()
        invariant
            k <= needle.len(),
            i + needle.len() <= hay.len(),
            forall|m: int| 0 <= m < k ==> hay@[i + m] == needle@[m],
        decreases needle.len() - k,
    {
        if hay[i + k] != needle[k] {
            assert(hay@.subrange(i as int, i + needle.len())[k as int] != needle@[k as int]);
            return false;
        }
        k += 1;
    }
    assert(hay@.subrange(i as int, i + needle.len()) =~= needle@);
    true
}

/// The first index at or after `start` where `needle` occurs in `hay`.
pub fn find_from_exec(hay: &[char], needle: &[char], start: usize) -> (r: Option<usize>)
    requires
        needle.len() > 0,
    ensures
        r matches Some(k) ==> find_from(hay@, needle@, start as int) == Some(k as int),
        r is None ==> find_from(hay@, needle@, start as int) is None,
{
    let mut i = start;
    while i <= hay.len() && needle.len() <= hay.len() - i
        invariant
            start <= i,
            needle.len() > 0,
            find_from(hay@, needle@, start as int) == find_from(hay@, needle@, i as int),
        decreases hay.len() + 1 - i,
    {
        if occurs_at_exec(hay, needle, i) {
            return Some(i);
        }
        i += 1;
    }
    None
}

// ---------------------------------------------------------------------------
// Longest suffix that starts a pattern
// ---------------------------------------------------------------------------

/// `text` ends with the first `len` characters of `pat`.
pub open spec fn ends_with_prefix(text: Seq<char>, pat: Seq<char>, len: int) -> bool {
    &&& 0 <= len <= text.len()
    &&& len <= pat.len()
    &&& text.subrange(text.len() - len, text.len() as int) == pat.take(len)
}

/// The largest `len <= max` (and at least 1) such that `text` ends with the
/// first `len` characters of `pat`, or 0 when there is none.
pub open spec fn suffix_prefix_upto(text: Seq<char>, pat: Seq<char>, max: int) -> int
    decreases max,
{
    if max <= 0 {
        0
    } else if ends_with_prefix(text, pat, max) {
        max
    } else {
        suffix_prefix_upto(text, pat, max - 1)
    }
}

/// Length of the longest non-empty suffix of `text` that is also a prefix of
/// `pat`, or 0.
pub open spec fn suffix_prefix_len(text: Seq<char>, pat: Seq<char>) -> int {
    suffix_prefix_upto(text, pat, if text.len() < pat.len() { text.len() as int } else { pat.len() as int })
}

pub proof fn lemma_suffix_prefix_upto(text: Seq<char>, pat: Seq<char>, max: int)
    requires
        max <= text.len(),
        max <= pat.len(),
    ensures
        0 <= suffix_prefix_upto(text, pat, max) <= (if max < 0 { 0 } else { max }),
        suffix_prefix_upto(text, pat, max) > 0 ==> ends_with_prefix(text, pat, suffix_prefix_upto(text, pat, max)),
        forall|l: int| suffix_prefix_upto(text, pat, max) < l <= max ==> !ends_with_prefix(text, pat, l),
    decreases max,
{
    if max > 0 && !ends_with_prefix(text, pat, max) {
        lemma_suffix_prefix_upto(text, pat, max - 1);
    }
}

/// Length of the longest suffix of `text` that is also a prefix of `pat`.
pub fn suffix_prefix_len_exec(text: &[char], pat: &[char]) -> (r: usize)
    ensures
        r as int == suffix_prefix_len(text@, pat@),
{
    let max = if text.len() < pat.len() { text.len() } else { pat.len() };
    let mut len = max;
    assert(suffix_prefix_len(text@, pat@) == suffix_prefix_upto(text@, pat@, max as int));
    while len > 0
        invariant
            len <= max,
            max <= text.len(),
            max <= pat.len(),
            suffix_prefix_len(text@, pat@) == suffix_prefix_upto(text@, pat@, len as int),
        decreases len,
    {
        let start = text.len() - len;
        let mut k: usize = 0;
        let mut same = true;
        while k < len
            invariant
                k <= len,
                len <= text.len(),
                len <= pat.len(),
                start == text.len() - len,
                len <= max,
                suffix_prefix_len(text@, pat@) == suffix_prefix_upto(text@, pat@, len as int),
                same == (forall|m: int| 0 <= m < k ==> text@[start + m] == pat@[m]),
            decreases len - k,
        {
            if text[start + k] != pat[k] {
                same = false;
            }
            k += 1;
        }
        if same {
            assert(ends_with_prefix(text@, pat@, len as int)) by {
                assert(text@.subrange(text.len() - len, text.len() as int) =~= pat@.take(len as int));
            }
            assert(suffix_prefix_upto(text@, pat@, len as int) == len as int);
            return len;
        } else {
            assert(!ends_with_prefix(text@, pat@, len as int)) by {
                if ends_with_prefix(text@, pat@, len as int) {
                    assert forall|m: int| 0 <= m < len implies text@[start + m] == pat@[m] by {
                        assert(text@.subrange(text.len() - len, text.len() as int)[m] == pat@.take(len as int)[m]);
                    }
                }
            }
        }
        len -= 1;
    }
    0
}

// ---------------------------------------------------------------------------
// Whitespace and trimming
// ---------------------------------------------------------------------------

/// Unicode `White_Space` characters, as `char::is_whitespace` classifies them.
pub open spec fn is_white_space(c: char) -> bool {
    let u = c as u32;
    ||| (0x09 <= u <= 0x0D)
    ||| u == 0x20
    ||| u == 0x85
    ||| u == 0xA0
    ||| u == 0x1680
    ||| (0x2000 <= u <= 0x200A)
    ||| u == 0x2028
    ||| u == 0x2029
    ||| u == 0x202F
    ||| u == 0x205F
    ||| u == 0x3000
}

/// Whether `c` is Unicode white space.
pub fn is_white_space_exec(c: char) -> (r: bool)
    ensures
        r == is_white_space(c),
{
    let u = c as u32;
    (0x09 <= u && u <= 0x0D) || u == 0x20 || u == 0x85 || u == 0xA0 || u == 0x1680 || (0x2000
        <= u && u <= 0x200A) || u == 0x2028 || u == 0x2029 || u == 0x202F || u == 0x205F || u
        == 0x3000
}

/// Number of leading white-space characters of `s` from index `i` on.
pub open spec fn leading_ws_from(s: Seq<char>, i: int) -> int
    decreases s.len() - i,
{
    if i < 0 || i >= s.len() || !is_white_space(s[i]) {
        i
    } else {
        leading_ws_from(s, i + 1)
    }
}

/// Index one past the last non-white-space character of `s` at or before `j`.
pub open spec fn trailing_ws_to(s: Seq<char>, lo: int, j: int) -> int
    decreases j - lo,
{
    if j <= lo || !is_white_space(s[j - 1]) {
        j
    } else {
        trailing_ws_to(s, lo, j - 1)
    }
}

/// `s` without leading and trailing white space (what `str::trim` returns).
pub open spec fn trim(s: Seq<char>) -> Seq<char> {
    let lo = leading_ws_from(s, 0);
    s.subrange(lo, trailing_ws_to(s, lo, s.len() as int))
}

/// `s` without leading and trailing white space.
pub fn trim_chars(s: &[char]) -> (r: Vec<char>)
    ensures
        r@ == trim(s@),
{
    let mut lo: usize = 0;
    while lo < s.len() && is_white_space_exec(s[lo])
        invariant
            lo <= s.len(),
            leading_ws_from(s@, 0) == leading_ws_from(s@, lo as int),
        decreases s.len() - lo,
    {
        lo += 1;
    }
    let mut hi: usize = s.len();
    while hi > lo && is_white_space_exec(s[hi - 1])
        invariant
            lo <= hi <= s.len(),
            trailing_ws_to(s@, lo as int, s.len() as int) == trailing_ws_to(s@, lo as int, hi as int),
        decreases hi,
    {
        hi -= 1;
    }
    slice_range(s, lo, hi)
}

/// Copies `s[lo..hi]` into a new vector.
pub fn slice_range(s: &[char], lo: usize, hi: usize) -> (r: Vec<char>)
    requires
        lo <= hi <= s.len(),
    ensures
        r@ == s@.subrange(lo as int, hi as int),
{
    let mut v: Vec<char> = Vec::new();
    let mut i = lo;
    while i < hi
        invariant
            lo <= i <= hi,
            hi <= s.len(),
            v@ == s@.subrange(lo as int, i as int),
        decreases hi - i,
    {
        v.push(s[i]);
        assert(s@.subrange(lo as int, i as int).push(s@[i as int]) =~= s@.subrange(lo as int, i + 1));
        i += 1;
    }
    v
}

/// Appends all of `src` to `dst`.
pub fn extend_chars(dst: &mut Vec<char>, src: &[char])
    ensures
        final(dst)@ == old(dst)@ + src@,
{
    let mut i: usize = 0;
    while i < src.len()
        invariant
            i <= src.len(),
            dst@ == old(dst)@ + src@.take(i as int),
        decreases src.len() - i,
    {
        dst.push(src[i]);
        assert(old(dst)@ + src@.take(i as int) + seq![src@[i as int]] =~= old(dst)@ + src@.take(i + 1));
        i += 1;
    }
    assert(src@.take(src.len() as int) =~= src@);
}

/// Whether two character slices hold the same characters.
pub fn chars_eq(a: &[char], b: &[char]) -> (r: bool)
    ensures
        r == (a@ == b@),
{
    if a.len() != b.len() {
        return false;
    }
    let mut i: usize = 0;
    while i < a.len()
        invariant
            i <= a.len(),
            a.len() == b.len(),
            forall|m: int| 0 <= m < i ==> a@[m] == b@[m],
        decreases a.len() - i,
    {
        if a[i] != b[i] {
            return false;
        }
        i += 1;
    }
    assert(a@ =~= b@);
    true
}

// ---------------------------------------------------------------------------
// Lexicographic order
// ---------------------------------------------------------------------------

/// `a` sorts strictly before `b`, comparing characters by code point. UTF-8
/// preserves code-point order, so this is the order of `String`'s `Ord`.
pub open spec fn seq_lt(a: Seq<char>, b: Seq<char>) -> bool
    decreases a.len(),
{
    if a.len() == 0 {
        b.len() > 0
    } else if b.len() == 0 {
        false
    } else if a[0] < b[0] {
        true
    } else if a[0] > b[0] {
        false
    } else {
        seq_lt(a.drop_first(), b.drop_first())
    }
}

/// Whether `a` sorts strictly before `b`.
pub fn chars_lt(a: &[char], b: &[char]) -> (r: bool)
    ensures
        r == seq_lt(a@, b@),
{
    let mut i: usize = 0;
    assert(a@.skip(0) =~= a@);
    assert(b@.skip(0) =~= b@);
    while i < a.len() && i < b.len()
        invariant
            i <= a.len(),
            i <= b.len(),
            seq_lt(a@, b@) == seq_lt(a@.skip(i as int), b@.skip(i as int)),
        decreases a.len() - i,
    {
        let x = a[i];
        let y = b[i];
        if x < y {
            return true;
        }
        if x > y {
            return false;
        }
        assert(a@.skip(i as int).drop_first() =~= a@.skip(i + 1));
        assert(b@.skip(i as int).drop_first() =~= b@.skip(i + 1));
        i += 1;
    }
    i < b.len()
}

pub proof fn lemma_seq_lt_irreflexive(a: Seq<char>)
    ensures
        !seq_lt(a, a),
    decreases a.len(),
{
    if a.len() > 0 {
        lemma_seq_lt_irreflexive(a.drop_first());
    }
}

pub proof fn lemma_seq_lt_asymmetric(a: Seq<char>, b: Seq<char>)
    ensures
        seq_lt(a, b) ==> !seq_lt(b, a),
    decreases a.len(),
{
    if a.len() > 0 && b.len() > 0 && a[0] == b[0] {
        lemma_seq_lt_asymmetric(a.drop_first(), b.drop_first());
    }
}

pub proof fn lemma_seq_lt_transitive(a: Seq<char>, b: Seq<char>, c: Seq<char>)
    ensures
        seq_lt(a, b) && seq_lt(b, c) ==> seq_lt(a, c),
    decreases a.len(),
{
    if a.len() > 0 && b.len() > 0 && c.len() > 0 {
        lemma_seq_lt_transitive(a.drop_first(), b.drop_first(), c.drop_first());
    }
}

pub proof fn lemma_seq_lt_total(a: Seq<char>, b: Seq<char>)
    ensures
        a != b ==> seq_lt(a, b) || seq_lt(b, a),
    decreases a.len(),
{
    if a.len() > 0 && b.len() > 0 && a[0] == b[0] {
        lemma_seq_lt_total(a.drop_first(), b.drop_first());
        if a.drop_first() == b.drop_first() {
            assert(a =~= seq![a[0]] + a.drop_first());
            assert(b =~= seq![b[0]] + b.drop_first());
        }
    } else if a.len() == 0 && b.len() == 0 {
        assert(a =~= b);
    }
}


/// Decimal digits of `n`.
pub open spec fn decimal(n: nat) -> Seq<char>
    decreases n,
{
    if n < 10 {
        seq![digit_char(n)]
    } else {
        decimal(n / 10).push(digit_char(n % 10))
    }
}

pub open spec fn digit_char(d: nat) -> char {
    if d == 0 { '0' } else if d == 1 { '1' } else if d == 2 { '2' } else if d == 3 { '3' } else if d
        == 4 { '4' } else if d == 5 { '5' } else if d == 6 { '6' } else if d == 7 { '7' } else if d
        == 8 { '8' } else { '9' }
}


pub fn digit_exec(d: u64) -> (c: char)
    requires
        d < 10,
    ensures
        c == digit_char(d as nat),
{
    if d == 0 { '0' } else if d == 1 { '1' } else if d == 2 { '2' } else if d == 3 { '3' } else if d
        == 4 { '4' } else if d == 5 { '5' } else if d == 6 { '6' } else if d == 7 { '7' } else if d
        == 8 { '8' } else { '9' }
}

/// Decimal digits of `n`.
pub fn decimal_exec(n: u64) -> (r: Vec<char>)
    ensures
        r@ == decimal(n as nat),
    decreases n,
{
    if n < 10 {
        let r = vec![digit_exec(n)];
        assert(r@ =~= decimal(n as nat));
        r
    } else {
        let mut r = decimal_exec(n / 10);
        r.push(digit_exec(n % 10));
        r
    }
}


/// The Unicode lower-case mapping of a string, as `str::to_lowercase`
/// computes it.
pub uninterp spec fn lowercase(s: Seq<char>) -> Seq<char>;

/// Every character is ASCII.
pub open spec fn is_ascii(s: Seq<char>) -> bool {
    forall|i: int| 0 <= i < s.len() ==> (#[trigger] s[i] as u32) < 128
}

/// The ASCII lower-case of a character: `A` to `Z` become `a` to `z`, every
/// other character stays.
pub open spec fn ascii_lower_char(c: char) -> char {
    if 'A' <= c && c <= 'Z' {
        ((c as u32) + 32) as char
    } else {
        c
    }
}

/// Every character in ASCII lower case.
pub open spec fn ascii_lower(s: Seq<char>) -> Seq<char> {
    s.map_values(|c: char| ascii_lower_char(c))
}

/// `str::to_lowercase`: the result is named `lowercase(s)`. For ASCII text
/// the Unicode lower-case mapping is the ASCII one: `A` to `Z` become `a` to
/// `z`, and every other ASCII character has no lower-case form and stays.
#[verifier::external_body]
pub(crate) fn to_lowercase(s: &str) -> (r: String)
    ensures
        r@ == lowercase(s@),
        is_ascii(s@) ==> r@ == ascii_lower(s@),
{
    s.to_lowercase()
}

/// ASCII lower-casing keeps text ASCII, and doing it twice changes nothing
/// more.
pub proof fn lemma_ascii_lower_idempotent(s: Seq<char>)
    ensures
        is_ascii(s) ==> is_ascii(ascii_lower(s)),
        ascii_lower(ascii_lower(s)) == ascii_lower(s),
{
    assert(ascii_lower(ascii_lower(s)) =~= ascii_lower(s));
    if is_ascii(s) {
        assert forall|i: int| 0 <= i < ascii_lower(s).len() implies (#[trigger] ascii_lower(s)[i] as u32) < 128 by {
            assert(s[i] as u32 <= 127);
        }
    }
}

/// `needle` occurs somewhere in `hay`.
pub open spec fn contains(hay: Seq<char>, needle: Seq<char>) -> bool {
    find(hay, needle) is Some
}

/// Whether `needle` (non-empty) occurs in `hay`.
pub fn contains_exec(hay: &[char], needle: &[char]) -> (r: bool)
    requires
        needle.len() > 0,
    ensures
        r == contains(hay@, needle@),
{
    find_from_exec(hay, needle, 0).is_some()
}

} // verus!
