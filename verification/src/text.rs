//! Text as PHP and the FastCGI peer see it: comparison, ASCII case, NUL bytes and UTF-8.

use vstd::prelude::*;
use vstd::utf8::{decode_utf8, encode_utf8, encode_utf8_decode_utf8, valid_utf8};

verus! {

/// `String::push` of the standard library appends the given character to the end.
pub assume_specification[ String::push ](s: &mut String, c: char)
    ensures
        final(s)@ == old(s)@.push(c),
;

/// Checks that `bytes` are UTF-8 and gives them back as text, by `std::str::from_utf8`.
///
/// Believed of that function: it succeeds exactly on valid UTF-8, and the text it returns is the
/// decoding of the bytes.
#[verifier::external_body]
pub(crate) fn utf8_text(bytes: &[u8]) -> (text: Option<&str>)
    ensures
        text is Some <==> valid_utf8(bytes@),
        text matches Some(t) ==> t@ == decode_utf8(bytes@),
{
    std::str::from_utf8(bytes).ok()
}

/// The text that `String::from_utf8_lossy` makes of a byte string.
pub uninterp spec fn lossy_utf8(bytes: Seq<u8>) -> Seq<char>;

/// Reads `bytes` as text with `String::from_utf8_lossy`.
///
/// Believed of that function: its result depends on the bytes alone, and on valid UTF-8 it is the
/// decoding of the bytes. Which characters stand for an invalid sequence is not stated here.
#[verifier::external_body]
pub(crate) fn lossy_text(bytes: &[u8]) -> (text: String)
    ensures
        text@ == lossy_utf8(bytes@),
        valid_utf8(bytes@) ==> text@ == decode_utf8(bytes@),
{
    String::from_utf8_lossy(bytes).into_owned()
}

/// The text behind a string that may be absent.
pub open spec fn optional_text(text: Option<String>) -> Option<Seq<char>> {
    match text {
        Some(t) => Some(t@),
        None => None,
    }
}

/// Whether a text holds a NUL character, which no C string can carry.
pub open spec fn holds_nul(s: Seq<char>) -> bool {
    exists|i: int| 0 <= i < s.len() && #[trigger] s[i] == '\0'
}

/// The ASCII upper-case form of a character; a character outside `a..=z` is its own.
pub open spec fn upper_char(c: char) -> char {
    if 'a' <= c && c <= 'z' {
        ((c as u8 - 32) as u8) as char
    } else {
        c
    }
}

/// A text with every ASCII letter in upper case.
pub open spec fn upper_text(s: Seq<char>) -> Seq<char> {
    Seq::new(s.len(), |i: int| upper_char(s[i]))
}

/// The lower-case form of an ASCII byte; a byte outside `A..=Z` is its own.
pub open spec fn lower_byte(b: u8) -> u8 {
    if 0x41 <= b <= 0x5a {
        (b + 32) as u8
    } else {
        b
    }
}

/// Whether two byte strings are the same but for the case of ASCII letters.
pub open spec fn same_ignoring_case(a: Seq<u8>, b: Seq<u8>) -> bool {
    &&& a.len() == b.len()
    &&& forall|i: int|
        #![trigger a[i]]
        #![trigger b[i]]
        0 <= i < a.len() ==> lower_byte(a[i]) == lower_byte(b[i])
}

/// Upper case is stable: applying it twice changes nothing more.
pub proof fn upper_text_idempotent(s: Seq<char>)
    ensures
        upper_text(upper_text(s)) == upper_text(s),
{
    assert(upper_text(upper_text(s)) =~= upper_text(s));
}

/// Texts with the same UTF-8 encoding are the same text.
pub proof fn encoding_is_injective(a: Seq<char>, b: Seq<char>)
    requires
        encode_utf8(a) == encode_utf8(b),
    ensures
        a == b,
{
    encode_utf8_decode_utf8(a);
    encode_utf8_decode_utf8(b);
}

/// Compares two byte strings.
pub fn bytes_eq(a: &[u8], b: &[u8]) -> (same: bool)
    ensures
        same == (a@ == b@),
{
    if a.len() != b.len() {
        return false;
    }
    let mut i: usize = 0;
    while i < a.len()
        invariant
            i <= a@.len(),
            a@.len() == b@.len(),
            forall|j: int| 0 <= j < i ==> a@[j] == b@[j],
        decreases a@.len() - i,
    {
        if a[i] != b[i] {
            return false;
        }
        i = i + 1;
    }
    assert(a@ =~= b@);
    true
}

/// Compares two texts.
pub fn text_eq(a: &str, b: &str) -> (same: bool)
    ensures
        same == (a@ == b@),
{
    let same = bytes_eq(a.as_bytes(), b.as_bytes());
    proof {
        if same {
            encoding_is_injective(a@, b@);
        }
    }
    same
}

/// Compares two byte strings, taking ASCII letters of either case as equal.
pub fn eq_ignore_ascii_case(a: &[u8], b: &[u8]) -> (same: bool)
    ensures
        same == same_ignoring_case(a@, b@),
{
    if a.len() != b.len() {
        return false;
    }
    let mut i: usize = 0;
    while i < a.len()
        invariant
            i <= a@.len(),
            a@.len() == b@.len(),
            forall|j: int| 0 <= j < i ==> lower_byte(a@[j]) == lower_byte(b@[j]),
        decreases a@.len() - i,
    {
        if ascii_lower(a[i]) != ascii_lower(b[i]) {
            assert(lower_byte(a@[i as int]) != lower_byte(b@[i as int]));
            return false;
        }
        i = i + 1;
    }
    true
}

fn ascii_lower(b: u8) -> (lower: u8)
    ensures
        lower == lower_byte(b),
{
    if 0x41 <= b && b <= 0x5a {
        b + 32
    } else {
        b
    }
}

/// Tells whether `s` holds a NUL character.
pub fn has_nul(s: &str) -> (nul: bool)
    ensures
        nul == holds_nul(s@),
{
    for c in it: s.chars()
        invariant
            it.seq() == s@,
            forall|j: int| 0 <= j < it.index() ==> s@[j] != '\0',
    {
        if c == '\0' {
            assert(s@[it.index() as int] == '\0');
            return true;
        }
    }
    false
}

/// A copy of `s` with every ASCII letter in upper case.
pub fn to_ascii_uppercase(s: &str) -> (upper: String)
    ensures
        upper@ == upper_text(s@),
{
    let mut upper = String::new();
    for c in it: s.chars()
        invariant
            it.seq() == s@,
            upper@.len() == it.index(),
            forall|j: int| 0 <= j < it.index() ==> upper@[j] == upper_char(s@[j]),
    {
        if 'a' <= c && c <= 'z' {
            upper.push(((c as u8) - 32) as char);
        } else {
            upper.push(c);
        }
    }
    assert(upper@ =~= upper_text(s@));
    upper
}

/// Appends the UTF-8 bytes of `text` to `bytes`.
pub fn push_text(bytes: &mut Vec<u8>, text: &str)
    ensures
        final(bytes)@ == old(bytes)@ + encode_utf8(text@),
{
    bytes.extend_from_slice(text.as_bytes());
    assert(bytes@ =~= old(bytes)@ + encode_utf8(text@));
}

/// Upper case changes the letters `a` to `z` alone: each becomes the character 32 below it, and
/// every other character stays, in its place.
pub proof fn upper_case_changes_letters_alone(s: Seq<char>)
    ensures
        upper_text(s).len() == s.len(),
        forall|i: int|
            0 <= i < s.len() && 97 <= s[i] as int <= 122 ==> (#[trigger] upper_text(s)[i]) as int
                == s[i] as int - 32,
        forall|i: int|
            0 <= i < s.len() && !(97 <= s[i] as int <= 122) ==> (#[trigger] upper_text(s)[i])
                == s[i],
{
}

/// A text holds a NUL if and only if one of its characters is number zero.
pub proof fn nul_is_number_zero(s: Seq<char>)
    ensures
        holds_nul(s) <==> s.contains('\0'),
        holds_nul(s) <==> exists|i: int| 0 <= i < s.len() && (#[trigger] s[i]) as int == 0,
{
    if s.contains('\0') {
        let i = choose|i: int| 0 <= i < s.len() && s[i] == '\0';
        assert(s[i] == '\0');
    }
    if exists|i: int| 0 <= i < s.len() && (#[trigger] s[i]) as int == 0 {
        let i = choose|i: int| 0 <= i < s.len() && (#[trigger] s[i]) as int == 0;
        assert(s[i] == '\0');
    }
}

/// Byte strings are the same but for case if and only if they are equally long, and in each place
/// have the same byte or the two forms of one ASCII letter, which are 32 apart.
pub proof fn case_is_all_that_differs(a: Seq<u8>, b: Seq<u8>)
    ensures
        same_ignoring_case(a, b) <==> a.len() == b.len() && forall|i: int|
            0 <= i < a.len() ==> {
                ||| #[trigger] a[i] == b[i]
                ||| 65 <= a[i] <= 90 && b[i] == a[i] + 32
                ||| 65 <= b[i] <= 90 && a[i] == b[i] + 32
            },
{
    if same_ignoring_case(a, b) {
        assert forall|i: int| 0 <= i < a.len() implies {
            ||| #[trigger] a[i] == b[i]
            ||| 65 <= a[i] <= 90 && b[i] == a[i] + 32
            ||| 65 <= b[i] <= 90 && a[i] == b[i] + 32
        } by {
            assert(lower_byte(a[i]) == lower_byte(b[i]));
        }
    }
}

/// The text behind an optional string is the text of the string.
pub proof fn optional_text_is_the_text(text: Option<String>)
    ensures
        text is None <==> optional_text(text) is None,
        text matches Some(t) ==> optional_text(text) == Some(t@),
{
}

} // verus!
