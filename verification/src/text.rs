//! Character-level helpers shared by the other modules: the std string
//! operations the library relies on, and verified searches over `Seq<char>`.

use vstd::prelude::*;

verus! {

broadcast use vstd::string::group_string_axioms;

/// The character is in Latin-1 (at most U+00FF).
pub open spec fn is_latin1_char(c: char) -> bool {
    (c as u32) <= 0xFF
}

/// Every character of `s` is in Latin-1.
pub open spec fn is_latin1_text(s: Seq<char>) -> bool {
    forall|i: int| 0 <= i < s.len() ==> is_latin1_char(#[trigger] s[i])
}

/// The Unicode lowercase form of a Latin-1 character: `A`..`Z` and
/// U+00C0..U+00DE except U+00D7 move up by 0x20, every other character stays.
pub open spec fn latin1_lowercase(c: char) -> char {
    let v = c as u32;
    if ('A' <= c && c <= 'Z') || (0xC0 <= v && v <= 0xDE && v != 0xD7) {
        (v + 0x20) as char
    } else {
        c
    }
}

/// What `str::to_lowercase` returns for text that is not all Latin-1.
pub uninterp spec fn spec_unicode_lowercase(s: Seq<char>) -> Seq<char>;

/// What `str::to_lowercase` returns for a string with the given characters:
/// Latin-1 text lowercases character by character (no Latin-1 character has
/// a context-dependent or multi-character lowercase form); other text is only
/// named.
pub open spec fn spec_to_lowercase(s: Seq<char>) -> Seq<char> {
    if is_latin1_text(s) {
        s.map_values(|c: char| latin1_lowercase(c))
    } else {
        spec_unicode_lowercase(s)
    }
}

/// A Unicode `White_Space` character, the whitespace that `str::trim` removes.
pub open spec fn is_white_space(c: char) -> bool {
    let v = c as u32;
    (0x09 <= v && v <= 0x0D) || v == 0x20 || v == 0x85 || v == 0xA0 || v == 0x1680 || (0x2000 <= v
        && v <= 0x200A) || v == 0x2028 || v == 0x2029 || v == 0x202F || v == 0x205F || v == 0x3000
}

/// The position of the first non-whitespace character at or after `i`, or
/// the length when there is none.
pub open spec fn trim_start_index(s: Seq<char>, i: int) -> int
    decreases s.len() - i,
{
    if 0 <= i < s.len() && is_white_space(s[i]) {
        trim_start_index(s, i + 1)
    } else {
        i
    }
}

/// The end of `s` once the whitespace before position `j`, down to `lo`, is
/// dropped.
pub open spec fn trim_end_index(s: Seq<char>, lo: int, j: int) -> int
    decreases j - lo,
{
    if lo < j && j <= s.len() && is_white_space(s[j - 1]) {
        trim_end_index(s, lo, j - 1)
    } else {
        j
    }
}

/// `s` without its leading and trailing whitespace.
pub open spec fn spec_trim(s: Seq<char>) -> Seq<char> {
    let lo = trim_start_index(s, 0);
    s.subrange(lo, trim_end_index(s, lo, s.len() as int))
}

/// `str::to_lowercase` from std: the Unicode lowercase mapping of the whole
/// string. For Latin-1 text the contract states the result character by
/// character; for other text it only names it.
#[verifier::external_body]
pub(crate) fn to_lowercase(s: &str) -> (r: String)
    ensures
        is_latin1_text(s@) ==> r@ == s@.map_values(|c: char| latin1_lowercase(c)),
        !is_latin1_text(s@) ==> r@ == spec_unicode_lowercase(s@),
{
    s.to_lowercase()
}

/// `String::push` from std: appends one character to the end of the string.
#[verifier::external_body]
pub(crate) fn push_char(s: &mut String, c: char)
    ensures
        final(s)@ == old(s)@.push(c),
{
    s.push(c)
}

/// What `String::from_utf8_lossy` returns for bytes that are not valid UTF-8.
pub uninterp spec fn spec_utf8_lossy(bytes: Seq<u8>) -> Seq<char>;

/// The text of `bytes` read as UTF-8: exact for valid UTF-8, otherwise with
/// invalid sequences replaced as `String::from_utf8_lossy` does.
pub open spec fn lossy_text(bytes: Seq<u8>) -> Seq<char> {
    if vstd::utf8::valid_utf8(bytes) {
        vstd::utf8::decode_utf8(bytes)
    } else {
        spec_utf8_lossy(bytes)
    }
}

/// `String::from_utf8_lossy` from std: valid UTF-8 decodes to its characters;
/// where the bytes are not valid UTF-8, which replacement characters appear
/// where is only named.
#[verifier::external_body]
pub(crate) fn utf8_lossy(bytes: &[u8]) -> (r: String)
    ensures
        vstd::utf8::valid_utf8(bytes@) ==> r@ == vstd::utf8::decode_utf8(bytes@),
        !vstd::utf8::valid_utf8(bytes@) ==> r@ == spec_utf8_lossy(bytes@),
{
    String::from_utf8_lossy(bytes).into_owned()
}

/// `needle` occurs in `hay` starting at position `i`.
pub open spec fn occurs_at(hay: Seq<char>, needle: Seq<char>, i: int) -> bool {
    0 <= i && i + needle.len() <= hay.len() && hay.subrange(i, i + needle.len()) == needle
}

/// `needle` occurs somewhere in `hay` (the empty needle occurs everywhere).
pub open spec fn seq_contains(hay: Seq<char>, needle: Seq<char>) -> bool {
    exists|i: int| occurs_at(hay, needle, i)
}

/// The last `k` characters of `s`, or all of `s` when it is not longer than `k`.
pub open spec fn suffix_of_len(s: Seq<char>, k: nat) -> Seq<char> {
    if s.len() > k {
        s.subrange(s.len() - k, s.len() as int)
    } else {
        s
    }
}

/// The characters of `s`, in order.
pub fn chars_of(s: &str) -> (v: Vec<char>)
    ensures
        v@ == s@,
{
    let mut v: Vec<char> = Vec::new();
    for c in it: s.chars()
        invariant
            v@ == it.seq().take(it.index() as int),
            it.seq() == s@,
    {
        v.push(c);
    }
    v
}

/// A string made of the characters of `v` from position `start` up to `end`.
pub fn string_from_chars(v: &[char], start: usize, end: usize) -> (s: String)
    requires
        start <= end <= v.len(),
    ensures
        s@ == v@.subrange(start as int, end as int),
{
    let mut s = String::new();
    let mut i: usize = start;
    while i < end
        invariant
            start <= i <= end <= v.len(),
            s@ == v@.subrange(start as int, i as int),
        decreases end - i,
    {
        push_char(&mut s, v[i]);
        i = i + 1;
        assert(v@.subrange(start as int, i as int) =~= v@.subrange(start as int, i - 1).push(
            v@[i - 1],
        ));
    }
    s
}

fn white_space_char(c: char) -> (b: bool)
    ensures
        b == is_white_space(c),
{
    let v = c as u32;
    (0x09 <= v && v <= 0x0D) || v == 0x20 || v == 0x85 || v == 0xA0 || v == 0x1680 || (0x2000 <= v
        && v <= 0x200A) || v == 0x2028 || v == 0x2029 || v == 0x202F || v == 0x205F || v == 0x3000
}

/// `s` without its leading and trailing Unicode `White_Space` characters,
/// as `str::trim` gives it.
pub fn trim(s: &str) -> (r: String)
    ensures
        r@ == spec_trim(s@),
{
    let v = chars_of(s);
    let mut lo: usize = 0;
    while lo < v.len() && white_space_char(v[lo])
        invariant
            lo <= v.len(),
            v@ == s@,
            trim_start_index(v@, lo as int) == trim_start_index(v@, 0),
        decreases v.len() - lo,
    {
        lo = lo + 1;
    }
    let mut hi: usize = v.len();
    while lo < hi && white_space_char(v[hi - 1])
        invariant
            lo <= hi <= v.len(),
            v@ == s@,
            trim_end_index(v@, lo as int, hi as int) == trim_end_index(v@, lo as int, v@.len() as int),
        decreases hi,
    {
        hi = hi - 1;
    }
    string_from_chars(&v, lo, hi)
}

/// Whether `needle` occurs at position `i` of `hay`.
fn matches_at(hay: &[char], needle: &[char], i: usize) -> (b: bool)
    requires
        i + needle.len() <= hay.len(),
    ensures
        b == occurs_at(hay@, needle@, i as int),
{
    let mut j: usize = 0;
    while j < needle.len()
        invariant
            i + needle.len() <= hay.len(),
            j <= needle.len(),
            forall|k: int| 0 <= k < j ==> hay@[i + k] == needle@[k],
        decreases needle.len() - j,
    {
        if hay[i + j] != needle[j] {
            assert(hay@.subrange(i as int, i + needle.len())[j as int] != needle@[j as int]);
            return false;
        }
        j = j + 1;
    }
    assert(hay@.subrange(i as int, i + needle.len()) =~= needle@);
    true
}

/// Whether `needle` occurs anywhere in `hay`.
pub fn contains_chars(hay: &[char], needle: &[char]) -> (b: bool)
    ensures
        b == seq_contains(hay@, needle@),
{
    if needle.len() > hay.len() {
        return false;
    }
    let last = hay.len() - needle.len();
    let mut i: usize = 0;
    while i <= last
        invariant
            last + needle.len() == hay.len(),
            i <= last + 1,
            forall|k: int| 0 <= k < i ==> !occurs_at(hay@, needle@, k),
        decreases last + 1 - i,
    {
        if matches_at(hay, needle, i) {
            return true;
        }
        if i == last {
            return false;
        }
        i = i + 1;
    }
    false
}

/// Latin-1 reading of a byte.
pub fn byte_char(b: u8) -> (c: char)
    ensures
        c == b as char,
{
    b as char
}

proof fn lemma_trim_start_index(s: Seq<char>, i: int)
    requires
        0 <= i <= s.len(),
    ensures
        i <= trim_start_index(s, i) <= s.len(),
        forall|j: int| i <= j < trim_start_index(s, i) ==> is_white_space(#[trigger] s[j]),
        trim_start_index(s, i) < s.len() ==> !is_white_space(s[trim_start_index(s, i)]),
    decreases s.len() - i,
{
    if i < s.len() && is_white_space(s[i]) {
        lemma_trim_start_index(s, i + 1);
    }
}

proof fn lemma_trim_end_index(s: Seq<char>, lo: int, j: int)
    requires
        0 <= lo <= j <= s.len(),
    ensures
        lo <= trim_end_index(s, lo, j) <= j,
        forall|k: int| trim_end_index(s, lo, j) <= k < j ==> is_white_space(#[trigger] s[k]),
    decreases j - lo,
{
    if lo < j && is_white_space(s[j - 1]) {
        lemma_trim_end_index(s, lo, j - 1);
    }
}

/// Trimming leaves nothing exactly when the text is all whitespace.
pub proof fn lemma_trim_empty_iff_blank(s: Seq<char>)
    ensures
        spec_trim(s).len() == 0 <==> forall|i: int| 0 <= i < s.len() ==> is_white_space(#[trigger] s[i]),
{
    lemma_trim_start_index(s, 0);
    let lo = trim_start_index(s, 0);
    lemma_trim_end_index(s, lo, s.len() as int);
    let hi = trim_end_index(s, lo, s.len() as int);
    if lo < s.len() {
        if hi == lo {
            assert(is_white_space(s[lo]));
        }
        assert(!is_white_space(s[lo]));
    }
}

} // verus!
