//! Text services of the standard library that follow Unicode tables: lossy
//! decoding, lower-casing, and the `Debug` form of a text.
//!
//! Each has a name for its result (`lossy_decoded`, `lowercased_by_std`,
//! `debugged`), a trusted call that yields it, and a function that says what it
//! is on the plain inputs the protocol is made of.
use vstd::prelude::*;
use vstd::string::*;
use vstd::utf8;

verus! {

/// What `String::from_utf8_lossy` makes of `bytes`.
pub uninterp spec fn lossy_decoded(bytes: Seq<u8>) -> Seq<char>;

/// Calls `String::from_utf8_lossy`. The result depends on the bytes alone, and
/// valid UTF-8 is decoded as it stands; where the replacement characters go in
/// other input is not stated.
#[verifier::external_body]
fn call_from_utf8_lossy(bytes: &[u8]) -> (r: String)
    ensures
        r@ == lossy_decoded(bytes@),
        utf8::valid_utf8(bytes@) ==> r@ == utf8::decode_utf8(bytes@),
{
    String::from_utf8_lossy(bytes).into_owned()
}

/// The text that `bytes` hold: their UTF-8 decoding where they are valid UTF-8,
/// else the lossy one.
pub open spec fn decoded(bytes: Seq<u8>) -> Seq<char> {
    if utf8::valid_utf8(bytes) {
        utf8::decode_utf8(bytes)
    } else {
        lossy_decoded(bytes)
    }
}

/// The text that `bytes` hold.
pub fn decode(bytes: &[u8]) -> (r: String)
    ensures
        r@ == decoded(bytes@),
{
    call_from_utf8_lossy(bytes)
}

/// What `str::to_lowercase` makes of `s`.
pub uninterp spec fn lowercased_by_std(s: Seq<char>) -> Seq<char>;

/// An ASCII letter in lower case; any other character as it is.
pub open spec fn ascii_lower(c: char) -> char {
    if 65 <= c as int <= 90 {
        (c as int + 32) as char
    } else {
        c
    }
}

/// An ASCII letter in upper case; any other character as it is.
pub open spec fn ascii_upper(c: char) -> char {
    if 97 <= c as int <= 122 {
        (c as int - 32) as char
    } else {
        c
    }
}

/// Each character by `ascii_lower`.
pub open spec fn ascii_lowercase(s: Seq<char>) -> Seq<char> {
    Seq::new(s.len(), |i: int| ascii_lower(s[i]))
}

/// Each character by `ascii_upper`.
pub open spec fn ascii_uppercase(s: Seq<char>) -> Seq<char> {
    Seq::new(s.len(), |i: int| ascii_upper(s[i]))
}

/// Calls `str::to_lowercase`. The result depends on the text alone, and on ASCII
/// text it maps `A`-`Z` to `a`-`z` and keeps the rest; what becomes of other
/// characters is not stated.
#[verifier::external_body]
fn call_to_lowercase(s: &str) -> (r: String)
    ensures
        r@ == lowercased_by_std(s@),
        utf8::is_ascii_chars(s@) ==> r@ == ascii_lowercase(s@),
{
    s.to_lowercase()
}

/// `s` in lower case.
pub open spec fn lowercase(s: Seq<char>) -> Seq<char> {
    if utf8::is_ascii_chars(s) {
        ascii_lowercase(s)
    } else {
        lowercased_by_std(s)
    }
}

/// `s` in lower case.
pub fn to_lower(s: &str) -> (r: String)
    ensures
        r@ == lowercase(s@),
{
    call_to_lowercase(s)
}

/// How `Debug` shows the text `s`.
pub uninterp spec fn debugged(s: Seq<char>) -> Seq<char>;

/// Whether `s` is printable ASCII without quotes and backslashes.
pub open spec fn is_plain(s: Seq<char>) -> bool {
    forall|i: int|
        0 <= i < s.len() ==> 0x20 <= (#[trigger] s[i]) as int <= 0x7e && s[i] != '"' && s[i] != '\''
            && s[i] != '\\'
}

/// Calls `<str as Debug>::fmt` through `format!`. The result depends on the text
/// alone, and plain text is put between double quotes as it stands; how other
/// characters are escaped is not stated.
#[verifier::external_body]
fn call_debug(s: &str) -> (r: String)
    ensures
        r@ == debugged(s@),
        is_plain(s@) ==> r@ == seq!['"'] + s@ + seq!['"'],
{
    format!("{:?}", s)
}

/// How `Debug` shows the text `s`: between quotes, with escapes where needed.
pub open spec fn quoted(s: Seq<char>) -> Seq<char> {
    if is_plain(s) {
        seq!['"'] + s + seq!['"']
    } else {
        debugged(s)
    }
}

/// How `Debug` shows the text `s`.
pub fn quote(s: &str) -> (r: String)
    ensures
        r@ == quoted(s@),
{
    call_debug(s)
}


/// Upper and lower case differ by 32 in the letters of ASCII alone, and each undoes
/// the other there.
pub proof fn law_ascii_case(c: char)
    ensures
        'A' <= c <= 'Z' ==> ascii_lower(c) as int == c as int + 32 && ascii_upper(ascii_lower(c))
            == c && ascii_upper(c) == c,
        'a' <= c <= 'z' ==> ascii_upper(c) as int == c as int - 32 && ascii_lower(ascii_upper(c))
            == c && ascii_lower(c) == c,
        !('A' <= c <= 'Z') && !('a' <= c <= 'z') ==> ascii_lower(c) == c && ascii_upper(c) == c,
{
}

} // verus!
