//! Character and string helpers: the normalized fingerprint used to key
//! pending chat messages, and conversions between strings and char vectors.

use vstd::prelude::*;

verus! {

/// What `str::to_lowercase` returns: the lowercase equivalent of the
/// characters, a function of the characters alone.
pub uninterp spec fn lower_of(s: Seq<char>) -> Seq<char>;

/// What `str::trim` returns: the characters with leading and trailing
/// whitespace removed, a function of the characters alone.
pub uninterp spec fn trim_of(s: Seq<char>) -> Seq<char>;

/// The normalized content fingerprint of chat text: lowercase, then trim.
pub open spec fn norm_key(s: Seq<char>) -> Seq<char> {
    trim_of(lower_of(s))
}

/// Relies on `str::to_lowercase`: returns the lowercase equivalent of the
/// string, depending on its characters alone.
#[verifier::external_body]
pub(crate) fn lowercase(s: &str) -> (r: String)
    ensures
        r@ == lower_of(s@),
{
    s.to_lowercase()
}

/// Relies on `str::trim`: returns the slice with leading and trailing
/// whitespace removed, depending on its characters alone.
#[verifier::external_body]
pub(crate) fn trimmed(s: &str) -> (r: &str)
    ensures
        r@ == trim_of(s@),
{
    s.trim()
}

/// The normalized key under which pending chat text is indexed.
pub fn normalize_key(s: &str) -> (r: String)
    ensures
        r@ == norm_key(s@),
{
    let low = lowercase(s);
    let t = trimmed(low.as_str());
    t.to_owned()
}

/// Relies on the `FromIterator` impl of `String`: collecting a sequence of
/// chars yields the string of exactly those characters.
#[verifier::external_body]
pub(crate) fn chars_to_string(v: &Vec<char>) -> (r: String)
    ensures
        r@ == v@,
{
    v.iter().collect()
}

/// Relies on `char::from_u32`: `Some` exactly for Unicode scalar values,
/// and the returned char has the given value.
#[verifier::external_body]
pub(crate) fn char_from_u32(v: u32) -> (r: Option<char>)
    ensures
        r matches Some(c) ==> c as u32 == v,
        r is Some <==> (v < 0xD800 || (0xE000 <= v && v <= 0x10FFFF)),
{
    char::from_u32(v)
}

/// The characters of a string slice, as a vector.
pub fn str_to_chars(s: &str) -> (v: Vec<char>)
    ensures
        v@ == s@,
{
    let n = s.unicode_len();
    let mut v: Vec<char> = Vec::new();
    let mut i: usize = 0;
    while i < n
        invariant
            n == s@.len(),
            i <= n,
            v@ == s@.take(i as int),
        decreases n - i,
    {
        v.push(s.get_char(i));
        i = i + 1;
        assert(v@ =~= s@.take(i as int));
    }
    assert(v@ =~= s@);
    v
}

} // verus!
