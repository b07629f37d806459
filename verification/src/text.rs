//! Names as the user wrote them, and the keys they are filed under.

use vstd::prelude::*;

verus! {

/// The ASCII lower-case form of one character: `A` to `Z` become `a` to `z`,
/// every other character stays.
pub open spec fn lower_char(c: char) -> char {
    if 'A' <= c && c <= 'Z' {
        ((c as u8) + 32) as char
    } else {
        c
    }
}

/// The key under which a name is filed: the name with its ASCII letters in
/// lower case.
pub open spec fn spec_key(name: Seq<char>) -> Seq<char> {
    Seq::new(name.len(), |i: int| lower_char(name[i]))
}

/// Whether a text is its own key.
pub open spec fn is_key(text: Seq<char>) -> bool {
    spec_key(text) == text
}

/// `str::to_ascii_lowercase`: a copy of the text in which each of the ASCII
/// letters `A` to `Z` is replaced by its lower-case letter and every other
/// character is kept.
#[verifier::external_body]
fn ascii_lowercase(text: &str) -> (r: String)
    ensures
        r@ == spec_key(text@),
{
    text.to_ascii_lowercase()
}

/// The key under which `name` is filed.
pub fn key_of(name: &str) -> (r: String)
    ensures
        r@ == spec_key(name@),
        is_key(r@),
{
    proof {
        lemma_key_is_key(name@);
    }
    ascii_lowercase(name)
}

/// Whether two texts hold the same characters.
pub fn same_text(a: &str, b: &str) -> (r: bool)
    ensures
        r == (a@ == b@),
{
    a.to_owned() == b.to_owned()
}

/// A copy of a text.
pub fn owned(text: &str) -> (r: String)
    ensures
        r@ == text@,
{
    text.to_owned()
}

/// Taking the key of a key changes nothing.
pub proof fn lemma_key_is_key(name: Seq<char>)
    ensures
        is_key(spec_key(name)),
{
    assert(spec_key(spec_key(name)) =~= spec_key(name));
}

} // verus!
