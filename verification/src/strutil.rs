//! Small string helpers shared by the rest of the crate: character-exact
//! equality, building strings one character at a time, and the few std
//! character and case operations the crate relies on.

use vstd::prelude::*;
use vstd::string::StrSliceExecFns;

verus! {

/// What `str::to_uppercase` returns: a function of the characters alone.
pub uninterp spec fn upper_of(s: Seq<char>) -> Seq<char>;

/// What `str::to_lowercase` returns: a function of the characters alone.
pub uninterp spec fn lower_of(s: Seq<char>) -> Seq<char>;

/// Whether `char::is_alphanumeric` holds of a character.
pub uninterp spec fn is_alnum(c: char) -> bool;

/// Whether `char::is_whitespace` holds of a character.
pub uninterp spec fn is_space(c: char) -> bool;

/// Relies on str::to_uppercase: the result depends on the characters alone,
/// and an empty string stays empty.
#[verifier::external_body]
pub(crate) fn to_upper(s: &str) -> (r: String)
    ensures
        r@ == upper_of(s@),
        s@.len() == 0 ==> r@.len() == 0,
{
    s.to_uppercase()
}

/// Relies on str::to_lowercase: the result depends on the characters alone,
/// and an empty string stays empty.
#[verifier::external_body]
pub(crate) fn to_lower(s: &str) -> (r: String)
    ensures
        r@ == lower_of(s@),
        s@.len() == 0 ==> r@.len() == 0,
{
    s.to_lowercase()
}

/// Relies on char::is_alphanumeric: a property of the character alone.
#[verifier::external_body]
pub(crate) fn char_is_alnum(c: char) -> (r: bool)
    ensures
        r == is_alnum(c),
{
    c.is_alphanumeric()
}

/// Relies on char::is_whitespace: a property of the character alone.
#[verifier::external_body]
pub(crate) fn char_is_space(c: char) -> (r: bool)
    ensures
        r == is_space(c),
{
    c.is_whitespace()
}

/// Relies on String::push: appends the given character at the end.
#[verifier::external_body]
pub(crate) fn push_char(s: &mut String, c: char)
    ensures
        final(s)@ == old(s)@.push(c),
{
    s.push(c)
}

/// Character-exact equality of two string slices.
pub fn str_eq(a: &str, b: &str) -> (r: bool)
    ensures
        r == (a@ == b@),
{
    let la = a.unicode_len();
    let lb = b.unicode_len();
    if la != lb {
        return false;
    }
    let mut i: usize = 0;
    while i < la
        invariant
            i <= la,
            la == a@.len(),
            la == b@.len(),
            forall|j: int| 0 <= j < i ==> a@[j] == b@[j],
        decreases la - i,
    {
        if a.get_char(i) != b.get_char(i) {
            return false;
        }
        i += 1;
    }
    proof {
        assert(a@ =~= b@);
    }
    true
}

/// The characters of a string slice, in order, as a vector.
pub fn chars_of(s: &str) -> (r: Vec<char>)
    ensures
        r@ == s@,
{
    let n = s.unicode_len();
    let mut r: Vec<char> = Vec::new();
    let mut i: usize = 0;
    while i < n
        invariant
            i <= n,
            n == s@.len(),
            r@ == s@.subrange(0, i as int),
        decreases n - i,
    {
        let c = s.get_char(i);
        r.push(c);
        proof {
            assert(r@ =~= s@.subrange(0, i + 1));
        }
        i += 1;
    }
    proof {
        assert(r@ =~= s@);
    }
    r
}

/// A string holding exactly the given characters, in order.
pub fn string_from_chars(cs: &Vec<char>) -> (r: String)
    ensures
        r@ == cs@,
{
    let mut r = String::new();
    let mut i: usize = 0;
    while i < cs.len()
        invariant
            i <= cs@.len(),
            r@ == cs@.subrange(0, i as int),
        decreases cs@.len() - i,
    {
        push_char(&mut r, cs[i]);
        proof {
            assert(r@ =~= cs@.subrange(0, i + 1));
        }
        i += 1;
    }
    proof {
        assert(r@ =~= cs@);
    }
    r
}

} // verus!
