//! The password policy: a pure predicate on the characters of a password.

use vstd::prelude::*;

verus! {

/// The least number of characters an acceptable password has.
pub const MIN_PASSWORD_LENGTH: usize = 12;

/// An upper-case letter `A` to `Z`.
pub open spec fn is_uppercase(c: char) -> bool {
    'A' <= c <= 'Z'
}

/// A lower-case letter `a` to `z`.
pub open spec fn is_lowercase(c: char) -> bool {
    'a' <= c <= 'z'
}

/// A decimal digit `0` to `9`.
pub open spec fn is_digit(c: char) -> bool {
    '0' <= c <= '9'
}

/// A printable ASCII character that is neither a letter, a digit nor the
/// space: the punctuation marks and symbols of the ASCII table.
pub open spec fn is_symbol(c: char) -> bool {
    ||| '!' <= c <= '/'
    ||| ':' <= c <= '@'
    ||| '[' <= c <= '`'
    ||| '{' <= c <= '~'
}

/// Some character of `s` is an upper-case letter.
pub open spec fn has_uppercase(s: Seq<char>) -> bool {
    exists|i: int| 0 <= i < s.len() && is_uppercase(#[trigger] s[i])
}

/// Some character of `s` is a lower-case letter.
pub open spec fn has_lowercase(s: Seq<char>) -> bool {
    exists|i: int| 0 <= i < s.len() && is_lowercase(#[trigger] s[i])
}

/// Some character of `s` is a digit.
pub open spec fn has_digit(s: Seq<char>) -> bool {
    exists|i: int| 0 <= i < s.len() && is_digit(#[trigger] s[i])
}

/// Some character of `s` is a punctuation mark or symbol.
pub open spec fn has_symbol(s: Seq<char>) -> bool {
    exists|i: int| 0 <= i < s.len() && is_symbol(#[trigger] s[i])
}

/// The password policy: at least twelve characters, among them an upper-case
/// letter, a lower-case letter, a digit and a punctuation mark or symbol.
pub open spec fn satisfies_policy(s: Seq<char>) -> bool {
    &&& s.len() >= MIN_PASSWORD_LENGTH
    &&& has_uppercase(s)
    &&& has_lowercase(s)
    &&& has_digit(s)
    &&& has_symbol(s)
}

/// Tells whether `password` satisfies the password policy.
pub fn validate_password(password: &str) -> (valid: bool)
    ensures
        valid == satisfies_policy(password@),
{
    let mut count: usize = 0;
    let mut upper = false;
    let mut lower = false;
    let mut digit = false;
    let mut symbol = false;
    for c in it: password.chars()
        invariant
            it.seq() == password@,
            count == if it.index() < MIN_PASSWORD_LENGTH { it.index() } else { MIN_PASSWORD_LENGTH as int },
            upper == has_uppercase(password@.take(it.index())),
            lower == has_lowercase(password@.take(it.index())),
            digit == has_digit(password@.take(it.index())),
            symbol == has_symbol(password@.take(it.index())),
    {
        let ghost seen = password@.take(it.index());
        let ghost next = password@.take(it.index() + 1);
        assert(next == seen.push(c));
        proof {
            lemma_has_class_push(seen, c);
        }
        if count < MIN_PASSWORD_LENGTH {
            count = count + 1;
        }
        if 'A' <= c && c <= 'Z' {
            upper = true;
        }
        if 'a' <= c && c <= 'z' {
            lower = true;
        }
        if '0' <= c && c <= '9' {
            digit = true;
        }
        if ('!' <= c && c <= '/') || (':' <= c && c <= '@') || ('[' <= c && c <= '`') || ('{' <= c
            && c <= '~') {
            symbol = true;
        }
    }
    assert(password@.take(password@.len() as int) == password@);
    count >= MIN_PASSWORD_LENGTH && upper && lower && digit && symbol
}

/// Appending a character adds its class to those a string has, and no other.
pub proof fn lemma_has_class_push(s: Seq<char>, c: char)
    ensures
        has_uppercase(s.push(c)) == (has_uppercase(s) || is_uppercase(c)),
        has_lowercase(s.push(c)) == (has_lowercase(s) || is_lowercase(c)),
        has_digit(s.push(c)) == (has_digit(s) || is_digit(c)),
        has_symbol(s.push(c)) == (has_symbol(s) || is_symbol(c)),
{
    let t = s.push(c);
    assert(t[s.len() as int] == c);
    assert forall|i: int| 0 <= i < s.len() implies t[i] == s[i] by {}
    if has_uppercase(s) {
        let i = choose|i: int| 0 <= i < s.len() && is_uppercase(#[trigger] s[i]);
        assert(is_uppercase(t[i]));
    }
    if has_lowercase(s) {
        let i = choose|i: int| 0 <= i < s.len() && is_lowercase(#[trigger] s[i]);
        assert(is_lowercase(t[i]));
    }
    if has_digit(s) {
        let i = choose|i: int| 0 <= i < s.len() && is_digit(#[trigger] s[i]);
        assert(is_digit(t[i]));
    }
    if has_symbol(s) {
        let i = choose|i: int| 0 <= i < s.len() && is_symbol(#[trigger] s[i]);
        assert(is_symbol(t[i]));
    }
}

} // verus!
