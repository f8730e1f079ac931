//! Decoding of the game's substitution-ciphered `Client.log` and detection of
//! the engine's hotfix-restart request in the decoded stream.

use vstd::prelude::*;
use vstd::string::StringExecFns;
use crate::text::{
    chars_of, is_latin1_char, is_latin1_text, contains_chars, occurs_at, seq_contains, spec_to_lowercase, string_from_chars, suffix_of_len,
    to_lowercase,
};

verus! {

broadcast use vstd::string::group_string_axioms;

/// The character that the log cipher writes as byte `b`, where the table has one.
pub open spec fn lut_entry(b: u8) -> Option<char> {
    match b {
        // Punctuation & Symbols
        0xb4u8 => Some('['),
        0xb2u8 => Some(']'),
        0x8bu8 => Some('.'),
        0x9fu8 => Some(':'),
        0xc2u8 => Some('-'),
        0xafu8 => Some('\n'),
        0xe2u8 => Some('\r'),
        0x8du8 => Some('('),
        0xc6u8 => Some(')'),
        0xd4u8 => Some(','),
        0x9eu8 => Some('q'),
        0xc0u8 => Some('\\'),
        0x2fu8 => Some('/'),
        0x3au8 => Some(':'),
        0xfdu8 => Some(' '),
        0x85u8 => Some(' '),
        0xa0u8 => Some('O'),
        // Digits 0 - 9
        0x95u8 => Some('0'),
        0xdeu8 => Some('1'),
        0x97u8 => Some('2'),
        0xdcu8 => Some('3'),
        0x91u8 => Some('4'),
        0xdau8 => Some('5'),
        0x93u8 => Some('6'),
        0xd8u8 => Some('7'),
        0x9du8 => Some('8'),
        0xd6u8 => Some('9'),
        // Uppercase Letters
        0xaeu8 => Some('A'),
        0xacu8 => Some('C'),
        0xb8u8 => Some('W'),
        0xe9u8 => Some('L'),
        0xa4u8 => Some('K'),
        0x9cu8 => Some('S'),
        0xf7u8 => Some('R'),
        0xf1u8 => Some('T'),
        0xa2u8 => Some('M'),
        0xaau8 => Some('E'),
        0xe3u8 => Some('F'),
        0xe1u8 => Some('V'),
        0xf5u8 => Some('P'),
        0xedu8 => Some('H'),
        0xebu8 => Some('N'),
        0xa8u8 => Some('G'),
        0xbeu8 => Some('Q'),
        0xe7u8 => Some('B'),
        0xd2u8 => Some('|'),
        // Lowercase Letters
        0x8eu8 => Some('a'),
        0x8cu8 => Some('c'),
        0xc1u8 => Some('d'),
        0x8au8 => Some('e'),
        0xc3u8 => Some('f'),
        0x88u8 => Some('g'),
        0xcdu8 => Some('h'),
        0x86u8 => Some('i'),
        0xc9u8 => Some('l'),
        0x82u8 => Some('m'),
        0xcbu8 => Some('n'),
        0x80u8 => Some('o'),
        0xd5u8 => Some('p'),
        0xd7u8 => Some('r'),
        0xbcu8 => Some('s'),
        0xd1u8 => Some('t'),
        0x9au8 => Some('u'),
        0xd3u8 => Some('v'),
        0x98u8 => Some('w'),
        0xddu8 => Some('x'),
        0x96u8 => Some('y'),
        0xdfu8 => Some('z'),
        _ => None,
    }
}

/// The character a byte decodes to under `lut`: its table entry, or the byte
/// read as Latin-1 when the table has none.
pub open spec fn decode_byte(lut: Seq<Option<char>>, b: u8) -> char {
    match lut[b as int] {
        Some(c) => c,
        None => b as char,
    }
}

/// The text that `bytes` decode to under `lut`: one character per byte.
pub open spec fn decode_spec(lut: Seq<Option<char>>, bytes: Seq<u8>) -> Seq<char> {
    Seq::new(bytes.len(), |i: int| decode_byte(lut, bytes[i]))
}

/// Builds the byte substitution table of the game's log cipher.
pub fn build_lut() -> (lut: [Option<char>; 256])
    ensures
        forall|i: int| 0 <= i < 256 ==> #[trigger] lut@[i] == lut_entry(i as u8),
        is_log_table(lut@),
{
    let mut lut: [Option<char>; 256] = [None; 256];

    // Punctuation & Symbols
    lut[0xb4] = Some('[');
    lut[0xb2] = Some(']');
    lut[0x8b] = Some('.');
    lut[0x9f] = Some(':');
    lut[0xc2] = Some('-');
    lut[0xaf] = Some('\n');
    lut[0xe2] = Some('\r');
    lut[0x8d] = Some('(');
    lut[0xc6] = Some(')');
    lut[0xd4] = Some(',');
    lut[0x9e] = Some('q');
    lut[0xc0] = Some('\\');
    lut[0x2f] = Some('/');
    lut[0x3a] = Some(':');
    lut[0xfd] = Some(' ');
    lut[0x85] = Some(' ');
    lut[0xa0] = Some('O');
    // Digits 0 - 9
    lut[0x95] = Some('0');
    lut[0xde] = Some('1');
    lut[0x97] = Some('2');
    lut[0xdc] = Some('3');
    lut[0x91] = Some('4');
    lut[0xda] = Some('5');
    lut[0x93] = Some('6');
    lut[0xd8] = Some('7');
    lut[0x9d] = Some('8');
    lut[0xd6] = Some('9');
    // Uppercase Letters
    lut[0xae] = Some('A');
    lut[0xac] = Some('C');
    lut[0xb8] = Some('W');
    lut[0xe9] = Some('L');
    lut[0xa4] = Some('K');
    lut[0x9c] = Some('S');
    lut[0xf7] = Some('R');
    lut[0xf1] = Some('T');
    lut[0xa2] = Some('M');
    lut[0xaa] = Some('E');
    lut[0xe3] = Some('F');
    lut[0xe1] = Some('V');
    lut[0xf5] = Some('P');
    lut[0xed] = Some('H');
    lut[0xeb] = Some('N');
    lut[0xa8] = Some('G');
    lut[0xbe] = Some('Q');
    lut[0xe7] = Some('B');
    lut[0xd2] = Some('|');
    // Lowercase Letters
    lut[0x8e] = Some('a');
    lut[0x8c] = Some('c');
    lut[0xc1] = Some('d');
    lut[0x8a] = Some('e');
    lut[0xc3] = Some('f');
    lut[0x88] = Some('g');
    lut[0xcd] = Some('h');
    lut[0x86] = Some('i');
    lut[0xc9] = Some('l');
    lut[0x82] = Some('m');
    lut[0xcb] = Some('n');
    lut[0x80] = Some('o');
    lut[0xd5] = Some('p');
    lut[0xd7] = Some('r');
    lut[0xbc] = Some('s');
    lut[0xd1] = Some('t');
    lut[0x9a] = Some('u');
    lut[0xd3] = Some('v');
    lut[0x98] = Some('w');
    lut[0xdd] = Some('x');
    lut[0x96] = Some('y');
    lut[0xdf] = Some('z');

    lut
}

/// Decodes raw log bytes with the substitution table `lut`.
pub fn decode_bytes(bytes: &[u8], lut: &[Option<char>; 256]) -> (decoded: String)
    ensures
        decoded@ == decode_spec(lut@, bytes@),
{
    let mut decoded = String::new();
    let mut i: usize = 0;
    while i < bytes.len()
        invariant
            i <= bytes.len(),
            decoded@ == decode_spec(lut@, bytes@.take(i as int)),
        decreases bytes.len() - i,
    {
        let b = bytes[i];
        let c = match lut[b as usize] {
            Some(c) => c,
            None => crate::text::byte_char(b),
        };
        crate::text::push_char(&mut decoded, c);
        i = i + 1;
        assert(decoded@ =~= decode_spec(lut@, bytes@.take(i as int)));
    }
    assert(bytes@.take(bytes.len() as int) =~= bytes@);
    decoded
}

/// Only explicit launcher intent indicates a hotfix restart.
/// Generic exit and patch-module messages also occur during normal shutdown.
pub const RESTART_MARKERS: [&'static str; 1] = ["hotfixrestarttocompletehotfix"];

/// The restart markers as character sequences.
pub open spec fn restart_markers() -> Seq<Seq<char>> {
    RESTART_MARKERS@.map_values(|m: &str| m@)
}

/// The length of the longest sequence in `ms` (0 for none).
pub open spec fn max_len(ms: Seq<Seq<char>>) -> nat
    decreases ms.len(),
{
    if ms.len() == 0 {
        0
    } else {
        let rest = max_len(ms.drop_last());
        if ms.last().len() > rest {
            ms.last().len()
        } else {
            rest
        }
    }
}

/// How many characters of decoded text are carried over between reads: one
/// less than the longest marker, so that a marker split across two reads is
/// still whole in the carried text plus the next read.
pub open spec fn retained_len() -> nat {
    if max_len(restart_markers()) > 0 {
        (max_len(restart_markers()) - 1) as nat
    } else {
        0
    }
}

/// Some restart marker occurs in the lowercase form of `text`.
pub open spec fn marker_in(text: Seq<char>) -> bool {
    exists|k: int|
        0 <= k < restart_markers().len() && seq_contains(
            spec_to_lowercase(text),
            #[trigger] restart_markers()[k],
        )
}

/// The number of characters to carry over between reads.
fn retained_char_count() -> (n: usize)
    ensures
        n == retained_len(),
{
    let mut longest: usize = 0;
    let mut k: usize = 0;
    while k < RESTART_MARKERS.len()
        invariant
            k <= RESTART_MARKERS@.len(),
            longest == max_len(restart_markers().take(k as int)),
        decreases RESTART_MARKERS@.len() - k,
    {
        let marker_len = chars_of(RESTART_MARKERS[k]).len();
        assert(restart_markers().take(k + 1).drop_last() =~= restart_markers().take(k as int));
        if marker_len > longest {
            longest = marker_len;
        }
        k = k + 1;
    }
    assert(restart_markers().take(RESTART_MARKERS@.len() as int) =~= restart_markers());
    if longest > 0 {
        longest - 1
    } else {
        0
    }
}

/// Keeps only the last `retained_len()` characters of `text`.
pub fn retain_restart_marker_suffix(text: &mut String)
    ensures
        final(text)@ == suffix_of_len(old(text)@, retained_len()),
{
    let keep_chars = retained_char_count();
    let chars = chars_of(text.as_str());
    let char_count = chars.len();
    if char_count > keep_chars {
        let kept = string_from_chars(&chars, char_count - keep_chars, char_count);
        *text = kept;
    }
}

/// Whether some restart marker occurs in `text`.
fn contains_some_marker(text: &[char]) -> (found: bool)
    ensures
        found == exists|k: int|
            0 <= k < restart_markers().len() && seq_contains(text@, #[trigger] restart_markers()[k]),
{
    let mut k: usize = 0;
    while k < RESTART_MARKERS.len()
        invariant
            k <= RESTART_MARKERS@.len(),
            forall|j: int| 0 <= j < k ==> !seq_contains(text@, #[trigger] restart_markers()[j]),
        decreases RESTART_MARKERS@.len() - k,
    {
        let marker = chars_of(RESTART_MARKERS[k]);
        if contains_chars(text, &marker) {
            assert(seq_contains(text@, restart_markers()[k as int]));
            return true;
        }
        k = k + 1;
    }
    false
}

/// Appends newly decoded log text to the carried-over `tail` and reports
/// whether a restart marker occurs, case-insensitively, in the result. On a
/// match the tail is cleared; otherwise only its last characters are kept.
pub fn update_restart_marker_tail(tail: &mut String, decoded_text: &str) -> (found: bool)
    ensures
        found == marker_in(old(tail)@ + decoded_text@),
        found ==> final(tail)@ == Seq::<char>::empty(),
        !found ==> final(tail)@ == suffix_of_len(old(tail)@ + decoded_text@, retained_len()),
{
    tail.append(decoded_text);
    let lower_tail = to_lowercase(tail.as_str());
    let lower_chars = chars_of(lower_tail.as_str());
    let found = contains_some_marker(&lower_chars);
    if found {
        *tail = String::new();
        true
    } else {
        retain_restart_marker_suffix(tail);
        false
    }
}

/// Decoding works byte by byte: the text of two consecutive reads is the text
/// of the first followed by the text of the second.
pub proof fn lemma_decode_concat(lut: Seq<Option<char>>, a: Seq<u8>, b: Seq<u8>)
    ensures
        decode_spec(lut, a + b) == decode_spec(lut, a) + decode_spec(lut, b),
        decode_spec(lut, a).len() == a.len(),
{
    assert(decode_spec(lut, a + b) =~= decode_spec(lut, a) + decode_spec(lut, b));
}

/// The single marker is 29 characters long, so 28 characters are carried over.
pub proof fn lemma_retained_len()
    ensures
        retained_len() == 28,
{
    reveal_strlit("hotfixrestarttocompletehotfix");
    assert(restart_markers().len() == 1);
    assert(restart_markers()[0] == "hotfixrestarttocompletehotfix"@);
    assert(restart_markers().drop_last() =~= Seq::<Seq<char>>::empty());
    assert(max_len(restart_markers().drop_last()) == 0);
    assert(max_len(restart_markers()) == 29);
}

/// The carried tail never holds more than `retained_len()` characters.
pub proof fn lemma_tail_bounded(s: Seq<char>)
    ensures
        suffix_of_len(s, retained_len()).len() <= retained_len(),
{
}

/// Carrying a suffix forward loses nothing that matters: after any number of
/// reads without a marker, the tail is the last `retained_len()` characters of
/// all the text read since the tail was last empty.
pub proof fn lemma_tail_tracks_stream(stream: Seq<char>, next: Seq<char>)
    ensures
        suffix_of_len(suffix_of_len(stream, retained_len()) + next, retained_len())
            == suffix_of_len(stream + next, retained_len()),
{
    let k = retained_len();
    let t = suffix_of_len(stream, k);
    let lhs = suffix_of_len(t + next, k);
    let rhs = suffix_of_len(stream + next, k);
    if stream.len() > k {
        assert(lhs =~= rhs);
    } else {
        assert(t =~= stream);
    }
}

/// Lowercasing `x + y` lowercases `x` and `y` apart and keeps the length of `x`.
spec fn lowercase_splits_at(x: Seq<char>, y: Seq<char>) -> bool {
    spec_to_lowercase(x + y) == spec_to_lowercase(x) + spec_to_lowercase(y)
        && spec_to_lowercase(x).len() == x.len()
}

proof fn lemma_latin1_subrange(s: Seq<char>, a: int, b: int)
    requires
        is_latin1_text(s),
        0 <= a <= b <= s.len(),
    ensures
        is_latin1_text(s.subrange(a, b)),
{
    assert forall|i: int| 0 <= i < s.subrange(a, b).len() implies is_latin1_char(
        #[trigger] s.subrange(a, b)[i],
    ) by {
        assert(s.subrange(a, b)[i] == s[a + i]);
    }
}

/// Latin-1 text lowercases character by character, so its lowercase form
/// splits anywhere.
proof fn lemma_latin1_lowercase_splits(x: Seq<char>, y: Seq<char>)
    requires
        is_latin1_text(x),
        is_latin1_text(y),
    ensures
        is_latin1_text(x + y),
        lowercase_splits_at(x, y),
{
    assert forall|i: int| 0 <= i < (x + y).len() implies is_latin1_char(#[trigger] (x + y)[i]) by {
        if i < x.len() {
            assert((x + y)[i] == x[i]);
        } else {
            assert((x + y)[i] == y[i - x.len()]);
        }
    }
    assert(spec_to_lowercase(x + y) =~= spec_to_lowercase(x) + spec_to_lowercase(y));
}

/// The text read so far, split at the carried tail, lowercases in two parts.
proof fn lemma_latin1_splits_at_tail(stream: Seq<char>, next: Seq<char>)
    requires
        is_latin1_text(stream),
        is_latin1_text(next),
    ensures
        lowercase_splits_at(
            stream.take(stream.len() - suffix_of_len(stream, retained_len()).len()),
            suffix_of_len(stream, retained_len()) + next,
        ),
        stream.take(stream.len() - suffix_of_len(stream, retained_len()).len()) + (suffix_of_len(
            stream,
            retained_len(),
        ) + next) == stream + next,
{
    let tail = suffix_of_len(stream, retained_len());
    let p = stream.len() - tail.len();
    lemma_latin1_subrange(stream, 0, p);
    lemma_latin1_subrange(stream, p, stream.len() as int);
    assert(stream.take(p) =~= stream.subrange(0, p));
    assert(tail =~= stream.subrange(p, stream.len() as int));
    lemma_latin1_lowercase_splits(tail, next);
    lemma_latin1_lowercase_splits(stream.take(p), tail + next);
    assert(stream.take(p) + (tail + next) =~= stream + next);
}

proof fn lemma_max_len_bounds(ms: Seq<Seq<char>>, k: int)
    requires
        0 <= k < ms.len(),
    ensures
        ms[k].len() <= max_len(ms),
    decreases ms.len(),
{
    if k < ms.len() - 1 {
        lemma_max_len_bounds(ms.drop_last(), k);
    }
}

/// A marker split across reads is still found: in Latin-1 text, any marker
/// occurrence that ends inside the new read lies within the carried tail plus
/// the new read, which is where the search looks.
pub proof fn lemma_marker_across_reads_found(stream: Seq<char>, next: Seq<char>, k: int, i: int)
    requires
        is_latin1_text(stream),
        is_latin1_text(next),
        0 <= k < restart_markers().len(),
        occurs_at(spec_to_lowercase(stream + next), restart_markers()[k], i),
        i + restart_markers()[k].len() > stream.len(),
    ensures
        marker_in(suffix_of_len(stream, retained_len()) + next),
{
    lemma_latin1_splits_at_tail(stream, next);
    let marker = restart_markers()[k];
    let tail = suffix_of_len(stream, retained_len());
    let p = stream.len() - tail.len();
    let head = stream.take(p);
    let rest = tail + next;
    lemma_max_len_bounds(restart_markers(), k);
    let lower = spec_to_lowercase(stream + next);
    let lower_rest = spec_to_lowercase(rest);
    assert(lower == spec_to_lowercase(head) + lower_rest);
    assert(i >= p);
    let j = i - p;
    assert(lower_rest.subrange(j, j + marker.len()) =~= lower.subrange(i, i + marker.len()));
    assert(occurs_at(lower_rest, marker, j));
    assert(seq_contains(spec_to_lowercase(rest), restart_markers()[k]));
}

/// Nothing is found that is not there: in Latin-1 text, a marker in the carried
/// tail plus the new read is a marker in all the text read.
pub proof fn lemma_marker_in_tail_is_in_stream(stream: Seq<char>, next: Seq<char>)
    requires
        is_latin1_text(stream),
        is_latin1_text(next),
        marker_in(suffix_of_len(stream, retained_len()) + next),
    ensures
        marker_in(stream + next),
{
    lemma_latin1_splits_at_tail(stream, next);
    let tail = suffix_of_len(stream, retained_len());
    let p = stream.len() - tail.len();
    let head = stream.take(p);
    let rest = tail + next;
    let lower = spec_to_lowercase(stream + next);
    let lower_rest = spec_to_lowercase(rest);
    assert(lower == spec_to_lowercase(head) + lower_rest);
    let k = choose|k: int|
        0 <= k < restart_markers().len() && seq_contains(lower_rest, #[trigger] restart_markers()[k]);
    let marker = restart_markers()[k];
    let j = choose|j: int| occurs_at(lower_rest, marker, j);
    assert(lower.subrange(p + j, p + j + marker.len()) =~= lower_rest.subrange(j, j + marker.len()));
    assert(occurs_at(lower, marker, p + j));
    assert(seq_contains(lower, restart_markers()[k]));
}

/// Detection across reads is exact for Latin-1 text: once the text read so far
/// holds no marker, the next read reports a marker exactly when the whole
/// text read, lowercased, contains one. So a marker split over two reads is
/// found, and no marker is reported that the text does not hold.
pub proof fn lemma_next_read_detects_exactly(stream: Seq<char>, next: Seq<char>)
    requires
        is_latin1_text(stream),
        is_latin1_text(next),
        !marker_in(stream),
    ensures
        marker_in(suffix_of_len(stream, retained_len()) + next) == marker_in(stream + next),
{
    if marker_in(stream + next) {
        lemma_latin1_lowercase_splits(stream, next);
        let lower = spec_to_lowercase(stream + next);
        let k = choose|k: int|
            0 <= k < restart_markers().len() && seq_contains(lower, #[trigger] restart_markers()[k]);
        let marker = restart_markers()[k];
        let i = choose|i: int| occurs_at(lower, marker, i);
        if i + marker.len() > stream.len() {
            lemma_marker_across_reads_found(stream, next, k, i);
        } else {
            let lower_stream = spec_to_lowercase(stream);
            assert(lower_stream.subrange(i, i + marker.len()) =~= lower.subrange(i, i + marker.len()));
            assert(occurs_at(lower_stream, marker, i));
            assert(seq_contains(lower_stream, restart_markers()[k]));
            assert(false);
        }
    }
    if marker_in(suffix_of_len(stream, retained_len()) + next) {
        lemma_marker_in_tail_is_in_stream(stream, next);
    }
}

/// `lut` is the log cipher's table, as `build_lut` builds it.
pub open spec fn is_log_table(lut: Seq<Option<char>>) -> bool {
    lut.len() == 256 && forall|i: int| 0 <= i < 256 ==> #[trigger] lut[i] == lut_entry(i as u8)
}

/// Decoded log text is Latin-1: the table holds only ASCII characters, and a
/// byte without an entry reads as the Latin-1 character of the same number.
pub proof fn lemma_decoded_text_is_latin1(lut: Seq<Option<char>>, bytes: Seq<u8>)
    requires
        is_log_table(lut),
    ensures
        is_latin1_text(decode_spec(lut, bytes)),
{
    assert forall|i: int| 0 <= i < decode_spec(lut, bytes).len() implies is_latin1_char(
        #[trigger] decode_spec(lut, bytes)[i],
    ) by {
        let b = bytes[i];
        assert(lut[b as int] == lut_entry(b));
        assert(is_latin1_char(b as char));
    }
}

/// Split reads of the log are scanned exactly as the whole log would be:
/// once the bytes read so far decode to text with no marker, the next read
/// reports a marker exactly when all the bytes read, decoded and lowercased,
/// contain one. A marker split between two reads is found, and no marker is
/// reported that the log does not hold.
pub proof fn lemma_log_reads_detect_exactly(lut: Seq<Option<char>>, earlier: Seq<u8>, next: Seq<u8>)
    requires
        is_log_table(lut),
        !marker_in(decode_spec(lut, earlier)),
    ensures
        marker_in(
            suffix_of_len(decode_spec(lut, earlier), retained_len()) + decode_spec(lut, next),
        ) == marker_in(decode_spec(lut, earlier + next)),
{
    lemma_decoded_text_is_latin1(lut, earlier);
    lemma_decoded_text_is_latin1(lut, next);
    lemma_decode_concat(lut, earlier, next);
    lemma_next_read_detects_exactly(decode_spec(lut, earlier), decode_spec(lut, next));
}

/// The cipher bytes of the digits `0` to `9`, in order.
pub open spec fn cipher_digit_bytes() -> Seq<u8> {
    seq![0x95u8, 0xdeu8, 0x97u8, 0xdcu8, 0x91u8, 0xdau8, 0x93u8, 0xd8u8, 0x9du8, 0xd6u8]
}

/// The table decodes the `k`-th cipher digit byte to the digit `k`, so the ten
/// digit bytes decode to ten distinct digits and the numbers in log lines
/// (dates, times, versions) read as written.
pub proof fn lemma_cipher_digits(lut: Seq<Option<char>>, k: int)
    requires
        is_log_table(lut),
        0 <= k < 10,
    ensures
        decode_byte(lut, cipher_digit_bytes()[k]) as u32 == '0' as u32 + k,
{
    let b = cipher_digit_bytes()[k];
    assert(lut[b as int] == lut_entry(b));
}

/// Two bytes that the table maps decode to the same character only for the
/// two spellings of a space (0x85, 0xfd) and of a colon (0x3a, 0x9f): every
/// other mapped character has exactly one cipher byte.
pub proof fn lemma_cipher_injective(b1: u8, b2: u8)
    requires
        b1 != b2,
        lut_entry(b1) is Some,
        lut_entry(b1) == lut_entry(b2),
    ensures
        (b1 == 0x85 && b2 == 0xfd) || (b1 == 0xfd && b2 == 0x85) || (b1 == 0x3a && b2 == 0x9f) || (b1
            == 0x9f && b2 == 0x3a),
{
}

/// A byte the table has no entry for decodes to the character with the same
/// number, and a byte it has one for decodes to that entry.
pub proof fn lemma_decode_byte_cases(lut: Seq<Option<char>>, b: u8)
    requires
        is_log_table(lut),
    ensures
        lut_entry(b) is None ==> decode_byte(lut, b) as u32 == b as u32,
        lut_entry(b) matches Some(c) ==> decode_byte(lut, b) == c,
{
    assert(lut[b as int] == lut_entry(b));
}

/// The game's restart request as the log cipher writes it decodes to
/// `HotFixReStartToCompleteHotFix`, which holds the restart marker.
pub proof fn lemma_cipher_marker_decodes(lut: Seq<Option<char>>)
    requires
        is_log_table(lut),
    ensures
        decode_spec(
            lut,
            seq![
                0xedu8, 0x80u8, 0xd1u8, 0xe3u8, 0x86u8, 0xddu8, 0xf7u8, 0x8au8, 0x9cu8, 0xd1u8,
                0x8eu8, 0xd7u8, 0xd1u8, 0xf1u8, 0x80u8, 0xacu8, 0x80u8, 0x82u8, 0xd5u8, 0xc9u8,
                0x8au8, 0xd1u8, 0x8au8, 0xedu8, 0x80u8, 0xd1u8, 0xe3u8, 0x86u8, 0xddu8,
            ],
        ) == seq![
            'H', 'o', 't', 'F', 'i', 'x', 'R', 'e', 'S', 't', 'a', 'r', 't', 'T', 'o', 'C', 'o',
            'm', 'p', 'l', 'e', 't', 'e', 'H', 'o', 't', 'F', 'i', 'x',
        ],
{
    let bytes = seq![
        0xedu8, 0x80u8, 0xd1u8, 0xe3u8, 0x86u8, 0xddu8, 0xf7u8, 0x8au8, 0x9cu8, 0xd1u8,
        0x8eu8, 0xd7u8, 0xd1u8, 0xf1u8, 0x80u8, 0xacu8, 0x80u8, 0x82u8, 0xd5u8, 0xc9u8,
        0x8au8, 0xd1u8, 0x8au8, 0xedu8, 0x80u8, 0xd1u8, 0xe3u8, 0x86u8, 0xddu8,
    ];
    assert forall|i: int| 0 <= i < bytes.len() implies #[trigger] lut[bytes[i] as int] == lut_entry(
        bytes[i],
    ) by {}
    assert(decode_spec(lut, bytes) =~= seq![
        'H', 'o', 't', 'F', 'i', 'x', 'R', 'e', 'S', 't', 'a', 'r', 't', 'T', 'o', 'C', 'o',
        'm', 'p', 'l', 'e', 't', 'e', 'H', 'o', 't', 'F', 'i', 'x',
    ]);
}

} // verus!
