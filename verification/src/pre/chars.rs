use vstd::prelude::*;

verus! {

/// Whether `c` has the Unicode `Alphabetic` property, as `char::is_alphabetic` decides.
pub uninterp spec fn alphabetic(c: char) -> bool;

/// Whether `c` is in one of the Unicode number categories (Nd, Nl, No), as
/// `char::is_numeric` decides.
pub uninterp spec fn numeric(c: char) -> bool;

/// Whether `c` is one of the letters of the Cyrillic block that Ukrainian and
/// Russian are written with: `Ѐ`..`џ` (U+0400 to U+045F, among them `А`..`я`,
/// `Є`, `І`, `Ї`, `є`, `і`, `ї`) and `Ґ`, `ґ` (U+0490, U+0491). Unicode gives
/// each of them the general category of a letter (Lu or Ll).
pub open spec fn cyrillic_letter(c: char) -> bool {
    (0x400 <= (c as u32) && (c as u32) <= 0x45f) || (c as u32) == 0x490 || (c as u32) == 0x491
}

/// Whether `c` is a letter: among ASCII characters, exactly `a`..`z` and
/// `A`..`Z`; the Cyrillic letters are; beyond these, as the `Alphabetic`
/// property decides.
pub open spec fn letter_char(c: char) -> bool {
    if (c as u32) < 128 {
        ('a' <= c && c <= 'z') || ('A' <= c && c <= 'Z')
    } else if cyrillic_letter(c) {
        true
    } else {
        alphabetic(c)
    }
}

/// Whether `c` is a digit: among ASCII characters, exactly `0`..`9`; no
/// Cyrillic letter is; beyond these, as the Unicode number categories decide.
pub open spec fn number_char(c: char) -> bool {
    if (c as u32) < 128 {
        '0' <= c && c <= '9'
    } else if cyrillic_letter(c) {
        false
    } else {
        numeric(c)
    }
}

/// Calls `char::is_alphabetic`. Its contract claims that the answer is a
/// function of `c`, named `alphabetic`, and what Unicode fixes for ASCII and
/// for the Cyrillic letters: the ASCII letters are alphabetic and no other
/// ASCII character is, and every Cyrillic letter of `cyrillic_letter` is
/// (letters have the `Alphabetic` property). The other tables are not stated.
#[verifier::external_body]
pub(crate) fn is_alphabetic(c: char) -> (b: bool)
    ensures
        b == alphabetic(c),
        b == letter_char(c),
{
    c.is_alphabetic()
}

/// Calls `char::is_numeric`. Its contract claims that the answer is a
/// function of `c`, named `numeric`, and what Unicode fixes for ASCII and
/// for the Cyrillic letters: the digits `0`..`9` are numeric and no other
/// ASCII character is, and no Cyrillic letter of `cyrillic_letter` is (a
/// letter is in none of the number categories). The other tables are not
/// stated.
#[verifier::external_body]
pub(crate) fn is_numeric(c: char) -> (b: bool)
    ensures
        b == numeric(c),
        b == number_char(c),
{
    c.is_numeric()
}

/// Calls `String::push`, which appends `c` to the end of `s`.
#[verifier::external_body]
pub(crate) fn push_char(s: &mut String, c: char)
    ensures
        final(s)@ == old(s)@.push(c),
{
    s.push(c)
}

/// The characters of `s`, in order.
pub fn chars_of(s: &str) -> (v: Vec<char>)
    ensures
        v@ == s@,
{
    let mut v: Vec<char> = Vec::new();
    for c in it: s.chars()
        invariant
            v.len() == it.index(),
            forall|i: int| 0 <= i < v.len() ==> v@[i] == it.seq()[i],
    {
        v.push(c);
    }
    assert(v@ =~= s@);
    v
}

/// A string made of the characters `cs`.
pub fn string_of_chars(cs: &[char]) -> (s: String)
    ensures
        s@ == cs@,
{
    let mut s = String::new();
    let mut i: usize = 0;
    while i < cs.len()
        invariant
            i <= cs.len(),
            s@ == cs@.subrange(0, i as int),
        decreases cs.len() - i,
    {
        push_char(&mut s, cs[i]);
        i = i + 1;
        assert(s@ =~= cs@.subrange(0, i as int));
    }
    assert(cs@.subrange(0, cs.len() as int) =~= cs@);
    s
}

} // verus!
