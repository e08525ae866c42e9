//! Random passwords that satisfy the password policy.
//!
//! A password is put together in three steps. First the same number of
//! characters is drawn from each of the four classes, one class after the
//! other. Then the places that are left are filled from the whole alphabet,
//! never with the character that stands just before. Last the characters are
//! shuffled, and a shuffle that brings two equal characters side by side is
//! thrown away and tried again.

use crate::entropy::{choose_byte, shuffle_bytes};
use crate::password_validator::{
    has_digit, has_lowercase, has_symbol, has_uppercase, is_digit, is_lowercase, is_symbol,
    is_uppercase, satisfies_policy, MIN_PASSWORD_LENGTH,
};
use crate::text::{bytes_as_chars, lemma_ascii_decodes_to_itself, string_from_utf8};
use vstd::prelude::*;

verus! {

/// The length of the passwords that `generate_password` makes.
pub const PASSWORD_LENGTH: usize = 24;

/// How many characters of each class a password of `PASSWORD_LENGTH` holds
/// at least.
pub const SHARING_SIZE: usize = PASSWORD_LENGTH / 4;

/// The punctuation marks and symbols that passwords are made with:
/// ``!@#$%^&*()-_=+[]{}|;:,.<>?``.
pub const SYMBOLS: [u8; 26] = [
    33, 64, 35, 36, 37, 94, 38, 42, 40, 41, 45, 95, 61, 43, 91, 93, 123, 125, 124, 59, 58, 44, 46, 60,
    62, 63,
];

/// How often a shuffle is tried before the unshuffled order is kept.
pub const SHUFFLE_ATTEMPTS: usize = 64;

/// The bytes from `lo` to `hi`, both included, in rising order; none when
/// `lo` is above `hi`.
pub open spec fn byte_range(lo: u8, hi: u8) -> Seq<u8> {
    Seq::new(
        if lo <= hi {
            (hi - lo + 1) as nat
        } else {
            0
        },
        |i: int| (lo + i) as u8,
    )
}

/// No two neighbours in `s` are equal.
pub open spec fn no_equal_neighbours<T>(s: Seq<T>) -> bool {
    forall|i: int| 0 <= i < s.len() - 1 ==> #[trigger] s[i] != s[i + 1]
}

/// `b` is one of `SYMBOLS`.
pub open spec fn is_symbol_byte(b: u8) -> bool {
    SYMBOLS@.contains(b)
}

/// `b` belongs to the alphabet that passwords are made from: the letters
/// `A` to `Z` and `a` to `z`, the digits and `SYMBOLS`.
pub open spec fn in_alphabet(b: u8) -> bool {
    ||| is_uppercase(b as char)
    ||| is_lowercase(b as char)
    ||| is_digit(b as char)
    ||| is_symbol_byte(b)
}

/// Every character of `s` belongs to the alphabet that passwords are made
/// from.
pub open spec fn from_alphabet(s: Seq<char>) -> bool {
    forall|i: int| 0 <= i < s.len() ==> exists|b: u8| in_alphabet(b) && #[trigger] s[i] == b as char
}

/// What `generate_password_with_length` promises of a password of a given
/// length.
pub open spec fn well_generated(s: Seq<char>, length: nat) -> bool {
    &&& s.len() == length
    &&& satisfies_policy(s)
    &&& no_equal_neighbours(s)
    &&& from_alphabet(s)
}

/// The bytes of the characters from `start` to `end`, both included, each
/// character cut down to its lowest eight bits.
pub fn generate_characters(start: char, end: char) -> (chars: Vec<u8>)
    ensures
        chars@ == byte_range(start as u8, end as u8),
{
    let lo: u8 = #[verifier::truncate]
    (start as u8);
    let hi: u8 = #[verifier::truncate]
    (end as u8);
    let mut chars: Vec<u8> = Vec::new();
    if lo <= hi {
        let mut next: u8 = lo;
        while next < hi
            invariant
                lo <= next <= hi,
                chars@ == byte_range(lo, next).drop_last(),
            decreases hi - next,
        {
            chars.push(next);
            next = next + 1;
        }
        chars.push(hi);
    }
    chars
}

/// Every one of `SYMBOLS` counts as a punctuation mark or symbol under the
/// password policy, and is neither a letter nor a digit.
pub proof fn lemma_symbols_are_symbols()
    ensures
        forall|b: u8|
            is_symbol_byte(b) ==> is_symbol(b as char) && !is_uppercase(b as char) && !is_lowercase(
                b as char,
            ) && !is_digit(b as char) && b < 128,
{
    assert forall|b: u8| is_symbol_byte(b) implies is_symbol(b as char) && !is_uppercase(b as char)
        && !is_lowercase(b as char) && !is_digit(b as char) && b < 128 by {
        let i = choose|i: int| 0 <= i < SYMBOLS@.len() && SYMBOLS@[i] == b;
        assert(0 <= i < 26);
    }
}

/// The bytes of the alphabet are ASCII.
pub proof fn lemma_alphabet_is_ascii(b: u8)
    requires
        in_alphabet(b),
    ensures
        b < 128,
{
    lemma_symbols_are_symbols();
}

/// One byte of `items`, drawn at random.
fn draw(items: &Vec<u8>) -> (b: u8)
    requires
        items@.len() > 0,
    ensures
        items@.contains(b),
{
    match choose_byte(items.as_slice()) {
        Some(b) => b,
        None => items[0],
    }
}

/// The bytes of `items` that differ from `banned`.
fn without(items: &Vec<u8>, banned: u8) -> (kept: Vec<u8>)
    ensures
        forall|b: u8| kept@.contains(b) <==> items@.contains(b) && b != banned,
{
    let mut kept: Vec<u8> = Vec::new();
    let mut i: usize = 0;
    while i < items.len()
        invariant
            i <= items.len(),
            forall|b: u8| kept@.contains(b) <==> items@.take(i as int).contains(b) && b != banned,
        decreases items.len() - i,
    {
        let ghost seen = items@.take(i as int);
        let ghost before = kept@;
        let item = items[i];
        if item != banned {
            kept.push(item);
        }
        proof {
            let now = items@.take(i + 1);
            assert(now == seen.push(item));
            assert forall|b: u8| kept@.contains(b) <==> now.contains(b) && b != banned by {
                if kept@.contains(b) {
                    let k = choose|k: int| 0 <= k < kept@.len() && kept@[k] == b;
                    if k < before.len() {
                        assert(before.contains(b));
                        let j = choose|j: int| 0 <= j < seen.len() && seen[j] == b;
                        assert(now[j] == b);
                    } else {
                        assert(now[i as int] == b);
                    }
                }
                if now.contains(b) && b != banned {
                    let j = choose|j: int| 0 <= j < now.len() && now[j] == b;
                    if j < i {
                        assert(seen[j] == b);
                        assert(before.contains(b));
                        let k = choose|k: int| 0 <= k < before.len() && before[k] == b;
                        assert(kept@[k] == b);
                    } else {
                        assert(kept@[kept@.len() - 1] == b);
                    }
                }
            }
        }
        i = i + 1;
    }
    assert(items@.take(items.len() as int) == items@);
    kept
}

/// Tells whether two neighbours in `bytes` are equal.
fn has_equal_neighbours(bytes: &Vec<u8>) -> (found: bool)
    ensures
        found == !no_equal_neighbours(bytes@),
{
    if bytes.len() < 2 {
        return false;
    }
    let mut i: usize = 0;
    while i < bytes.len() - 1
        invariant
            bytes.len() >= 2,
            i <= bytes.len() - 1,
            forall|j: int| 0 <= j < i ==> #[trigger] bytes@[j] != bytes@[j + 1],
        decreases bytes.len() - i,
    {
        if bytes[i] == bytes[i + 1] {
            return true;
        }
        i = i + 1;
    }
    false
}

/// The alphabet that passwords are made from, class after class.
fn alphabet() -> (all: Vec<u8>)
    ensures
        forall|b: u8| all@.contains(b) <==> in_alphabet(b),
{
    let mut all = generate_characters('A', 'Z');
    let lower = generate_characters('a', 'z');
    let digits = generate_characters('0', '9');
    all.extend_from_slice(lower.as_slice());
    all.extend_from_slice(digits.as_slice());
    all.extend_from_slice(SYMBOLS.as_slice());
    proof {
        lemma_byte_range_contains(65, 90);
        lemma_byte_range_contains(97, 122);
        lemma_byte_range_contains(48, 57);
        let upper = byte_range(65, 90);
        assert(all@ == upper + lower@ + digits@ + SYMBOLS@);
        assert forall|b: u8| all@.contains(b) <==> in_alphabet(b) by {
            if all@.contains(b) {
                let i = choose|i: int| 0 <= i < all@.len() && all@[i] == b;
                if i < 26 {
                    assert(upper[i] == b);
                } else if i < 52 {
                    assert(lower@[i - 26] == b);
                } else if i < 62 {
                    assert(digits@[i - 52] == b);
                } else {
                    assert(SYMBOLS@[i - 62] == b);
                }
            }
            if in_alphabet(b) {
                if is_uppercase(b as char) {
                    assert(upper.contains(b));
                    let i = choose|i: int| 0 <= i < upper.len() && upper[i] == b;
                    assert(all@[i] == b);
                } else if is_lowercase(b as char) {
                    assert(lower@.contains(b));
                    let i = choose|i: int| 0 <= i < lower@.len() && lower@[i] == b;
                    assert(all@[26 + i] == b);
                } else if is_digit(b as char) {
                    assert(digits@.contains(b));
                    let i = choose|i: int| 0 <= i < digits@.len() && digits@[i] == b;
                    assert(all@[52 + i] == b);
                } else {
                    let i = choose|i: int| 0 <= i < SYMBOLS@.len() && SYMBOLS@[i] == b;
                    assert(all@[62 + i] == b);
                }
            }
        }
    }
    all
}

/// A range of bytes holds the bytes between its ends and no others.
pub proof fn lemma_byte_range_contains(lo: u8, hi: u8)
    ensures
        forall|b: u8| byte_range(lo, hi).contains(b) <==> lo <= b <= hi,
        byte_range(lo, hi).len() == if lo <= hi {
            hi - lo + 1
        } else {
            0
        },
{
    let r = byte_range(lo, hi);
    assert forall|b: u8| r.contains(b) <==> lo <= b <= hi by {
        if lo <= b <= hi {
            assert(r[b - lo] == b);
        }
    }
}

/// The first four bytes are an upper-case letter, a lower-case letter, a
/// digit and a symbol, in this order.
pub open spec fn leads_with_each_class(bytes: Seq<u8>) -> bool {
    &&& bytes.len() >= 4
    &&& is_uppercase(bytes[0] as char)
    &&& is_lowercase(bytes[1] as char)
    &&& is_digit(bytes[2] as char)
    &&& is_symbol_byte(bytes[3])
}

/// Every byte belongs to the alphabet.
pub open spec fn all_in_alphabet(bytes: Seq<u8>) -> bool {
    forall|i: int| 0 <= i < bytes.len() ==> in_alphabet(#[trigger] bytes[i])
}

/// The characters of a password before they are shuffled: `length / 4`
/// groups of one upper-case letter, one lower-case letter, one digit and one
/// symbol, then characters of any class, none equal to the one before it.
fn assemble(length: usize) -> (bytes: Vec<u8>)
    requires
        length >= 4,
    ensures
        bytes@.len() == length,
        leads_with_each_class(bytes@),
        all_in_alphabet(bytes@),
        no_equal_neighbours(bytes@),
{
    let uppercase = generate_characters('A', 'Z');
    let lowercase = generate_characters('a', 'z');
    let digits = generate_characters('0', '9');
    let mut symbols: Vec<u8> = Vec::new();
    symbols.extend_from_slice(SYMBOLS.as_slice());
    let all = alphabet();
    let share: usize = length / 4;
    let mut bytes: Vec<u8> = Vec::new();
    proof {
        lemma_byte_range_contains(65, 90);
        lemma_byte_range_contains(97, 122);
        lemma_byte_range_contains(48, 57);
        lemma_symbols_are_symbols();
    }
    let mut group: usize = 0;
    while group < share
        invariant
            group <= share,
            share == length / 4,
            uppercase@ == byte_range(65, 90),
            lowercase@ == byte_range(97, 122),
            digits@ == byte_range(48, 57),
            symbols@ == SYMBOLS@,
            bytes@.len() == 4 * group,
            group > 0 ==> leads_with_each_class(bytes@),
            group > 0 ==> is_symbol_byte(bytes@[bytes@.len() - 1]),
            all_in_alphabet(bytes@),
            no_equal_neighbours(bytes@),
        decreases share - group,
    {
        proof {
            lemma_byte_range_contains(65, 90);
            lemma_byte_range_contains(97, 122);
            lemma_byte_range_contains(48, 57);
            lemma_symbols_are_symbols();
        }
        let ghost before = bytes@;
        let u = draw(&uppercase);
        let l = draw(&lowercase);
        let d = draw(&digits);
        let s = draw(&symbols);
        bytes.push(u);
        bytes.push(l);
        bytes.push(d);
        bytes.push(s);
        proof {
            let after = bytes@;
            assert(after == before.push(u).push(l).push(d).push(s));
            assert forall|i: int| 0 <= i < after.len() - 1 implies #[trigger] after[i] != after[i
                + 1] by {
                if i < before.len() - 1 {
                    assert(before[i] != before[i + 1]);
                }
            }
        }
        group = group + 1;
    }
    while bytes.len() < length
        invariant
            4 <= bytes@.len() <= length,
            forall|b: u8| all@.contains(b) <==> in_alphabet(b),
            leads_with_each_class(bytes@),
            all_in_alphabet(bytes@),
            no_equal_neighbours(bytes@),
        decreases length - bytes.len(),
    {
        let ghost before = bytes@;
        let last = bytes[bytes.len() - 1];
        let candidates = without(&all, last);
        proof {
            let other: u8 = if last == 65u8 {
                66u8
            } else {
                65u8
            };
            assert(in_alphabet(other));
            assert(candidates@.contains(other));
        }
        let next = draw(&candidates);
        bytes.push(next);
        proof {
            let after = bytes@;
            assert forall|i: int| 0 <= i < after.len() - 1 implies #[trigger] after[i] != after[i
                + 1] by {
                if i < before.len() - 1 {
                    assert(before[i] != before[i + 1]);
                }
            }
        }
    }
    bytes
}

/// A shuffle of `built` in which no two neighbours are equal. A shuffle that
/// has equal neighbours is thrown away; after `SHUFFLE_ATTEMPTS` of them in
/// a row the order of `built` is kept.
fn arrange(built: Vec<u8>) -> (bytes: Vec<u8>)
    requires
        no_equal_neighbours(built@),
    ensures
        bytes@.to_multiset() == built@.to_multiset(),
        no_equal_neighbours(bytes@),
{
    let mut candidate = built.clone();
    let mut attempt: usize = 0;
    while attempt < SHUFFLE_ATTEMPTS
        invariant
            candidate@.to_multiset() == built@.to_multiset(),
        decreases SHUFFLE_ATTEMPTS - attempt,
    {
        shuffle_bytes(&mut candidate);
        if !has_equal_neighbours(&candidate) {
            return candidate;
        }
        attempt = attempt + 1;
    }
    built
}

/// Two sequences with the same bytes, each as often in one as in the other,
/// have the same length and hold the same bytes.
pub proof fn lemma_same_bytes(a: Seq<u8>, b: Seq<u8>)
    requires
        a.to_multiset() == b.to_multiset(),
    ensures
        a.len() == b.len(),
        forall|x: u8| a.contains(x) <==> b.contains(x),
{
    broadcast use vstd::seq_lib::group_to_multiset_ensures;

    assert(a.len() == a.to_multiset().len());
    assert(b.len() == b.to_multiset().len());
    assert forall|x: u8| a.contains(x) <==> b.contains(x) by {
        assert(a.contains(x) <==> a.to_multiset().count(x) > 0);
        assert(b.contains(x) <==> b.to_multiset().count(x) > 0);
    }
}

/// A sequence of alphabet bytes that holds a byte of each class reads as a
/// text that has a character of each class.
pub proof fn lemma_classes_of_text(bytes: Seq<u8>, u: u8, l: u8, d: u8, s: u8)
    requires
        bytes.contains(u) && is_uppercase(u as char),
        bytes.contains(l) && is_lowercase(l as char),
        bytes.contains(d) && is_digit(d as char),
        bytes.contains(s) && is_symbol_byte(s),
    ensures
        has_uppercase(bytes_as_chars(bytes)),
        has_lowercase(bytes_as_chars(bytes)),
        has_digit(bytes_as_chars(bytes)),
        has_symbol(bytes_as_chars(bytes)),
{
    lemma_symbols_are_symbols();
    let text = bytes_as_chars(bytes);
    let iu = choose|i: int| 0 <= i < bytes.len() && bytes[i] == u;
    assert(is_uppercase(text[iu]));
    let il = choose|i: int| 0 <= i < bytes.len() && bytes[i] == l;
    assert(is_lowercase(text[il]));
    let id = choose|i: int| 0 <= i < bytes.len() && bytes[i] == d;
    assert(is_digit(text[id]));
    let is = choose|i: int| 0 <= i < bytes.len() && bytes[i] == s;
    assert(is_symbol(text[is]));
}

/// A random password of `length` characters that satisfies the password
/// policy, is made of the alphabet's characters only and has no two equal
/// characters side by side.
pub fn generate_password_with_length(length: usize) -> (password: String)
    requires
        length >= MIN_PASSWORD_LENGTH,
    ensures
        well_generated(password@, length as nat),
{
    let built = assemble(length);
    let ghost drawn = built@;
    let bytes = arrange(built);
    proof {
        lemma_same_bytes(bytes@, drawn);
        assert(drawn.contains(drawn[0]) && drawn.contains(drawn[1]) && drawn.contains(drawn[2])
            && drawn.contains(drawn[3]));
        lemma_classes_of_text(bytes@, drawn[0], drawn[1], drawn[2], drawn[3]);
        assert forall|i: int| 0 <= i < bytes@.len() implies in_alphabet(#[trigger] bytes@[i]) by {
            assert(bytes@.contains(bytes@[i]));
            let j = choose|j: int| 0 <= j < drawn.len() && drawn[j] == bytes@[i];
            assert(in_alphabet(drawn[j]));
        }
        assert forall|i: int| 0 <= i < bytes@.len() implies #[trigger] bytes@[i] < 128 by {
            lemma_alphabet_is_ascii(bytes@[i]);
        }
        lemma_ascii_decodes_to_itself(bytes@);
        let text = bytes_as_chars(bytes@);
        assert forall|i: int| 0 <= i < text.len() - 1 implies #[trigger] text[i] != text[i + 1] by {
            assert(bytes@[i] != bytes@[i + 1]);
        }
        assert forall|i: int| 0 <= i < text.len() implies exists|b: u8|
            in_alphabet(b) && #[trigger] text[i] == b as char by {
            assert(in_alphabet(bytes@[i]) && text[i] == bytes@[i] as char);
        }
    }
    match string_from_utf8(bytes) {
        Some(password) => password,
        None => String::new(),
    }
}

/// A random password of `PASSWORD_LENGTH` characters that satisfies the
/// password policy and has no two equal characters side by side.
pub fn generate_password() -> (password: String)
    ensures
        well_generated(password@, PASSWORD_LENGTH as nat),
{
    generate_password_with_length(PASSWORD_LENGTH)
}

} // verus!
