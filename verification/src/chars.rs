//! Conversions between `String`/`&str` and `Vec<char>`, and character-vector
//! comparison. The JSON codec in this crate works over `Vec<char>` so that
//! every contract can speak of `Seq<char>`.

use vstd::prelude::*;

verus! {

/// Collect the characters of a string slice into a vector, in order.
pub fn str_to_chars(s: &str) -> (v: Vec<char>)
    ensures
        v@ == s@,
{
    let n: usize = s.unicode_len();
    let mut v: Vec<char> = Vec::new();
    let mut i: usize = 0;
    while i < n
        invariant
            n == s@.len(),
            i <= n,
            v@ == s@.subrange(0, i as int),
        decreases n - i,
    {
        let c = s.get_char(i);
        v.push(c);
        i = i + 1;
        proof {
            assert(v@ =~= s@.subrange(0, i as int));
        }
    }
    proof {
        assert(v@ =~= s@);
    }
    v
}

/// Relies on `core::iter::Iterator::collect` for `String`: collecting the
/// characters of the vector yields the string made of exactly those
/// characters, in order.
#[verifier::external_body]
pub fn chars_to_string(v: &Vec<char>) -> (s: String)
    ensures
        s@ == v@,
{
    v.iter().collect()
}

/// Equality of a character vector with the characters of a string slice.
pub fn chars_eq_str(a: &Vec<char>, s: &str) -> (r: bool)
    ensures
        r == (a@ == s@),
{
    let n: usize = s.unicode_len();
    if a.len() != n {
        proof {
            assert(a@ != s@);
        }
        return false;
    }
    let mut i: usize = 0;
    while i < n
        invariant
            n == a@.len() && n == s@.len(),
            i <= n,
            forall|k: int| 0 <= k < i ==> a@[k] == s@[k],
        decreases n - i,
    {
        if a[i] != s.get_char(i) {
            return false;
        }
        i = i + 1;
    }
    proof {
        assert(a@ =~= s@);
    }
    true
}

} // verus!

verus! {

/// `c` is the character with code point `n`.
pub open spec fn has_code(c: char, n: u32) -> bool {
    c as u32 == n
}

/// The character with code point `n`, for a valid scalar value `n`.
pub open spec fn char_of(n: u32) -> char {
    choose|c: char| has_code(c, n)
}

/// Two characters with the same code point are the same character.
pub proof fn lemma_char_code_injective(c1: char, c2: char)
    requires
        c1 as u32 == c2 as u32,
    ensures
        c1 == c2,
{
}

/// A character witnesses its own code point: `char_of` maps the code back.
pub proof fn lemma_char_of(c: char, n: u32)
    requires
        c as u32 == n,
    ensures
        char_of(n) == c,
{
    assert(has_code(c, n));
    let w = choose|cc: char| has_code(cc, n);
    assert(w as u32 == n);
    lemma_char_code_injective(w, c);
}

/// Relies on `char::from_u32` (vstd gives it no specification): `Some`
/// exactly for code points that are valid scalar values, that is, below
/// the surrogate range or between its end and 0x10FFFF, and then the
/// returned character has that code point.
#[verifier::external_body]
pub fn char_from_u32(n: u32) -> (r: Option<char>)
    ensures
        r matches Some(c) ==> c as u32 == n,
        (r is Some) <==> (n < 0xD800 || (0xE000 <= n && n <= 0x10FFFF)),
{
    char::from_u32(n)
}

} // verus!
