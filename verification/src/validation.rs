//! The rules that texts must meet when a listing or a user is created or
//! edited: length bounds, the shape of an e-mail address and of a phone
//! number. Lengths and shapes are those of the UTF-8 form of a text.

use crate::text::byte_len;
use vstd::prelude::*;
use vstd::string::*;
use vstd::utf8::*;

verus! {

/// The ASCII codes that the shapes are made of.
pub const DIGIT_0: u8 = 0x30;

pub const DIGIT_9: u8 = 0x39;

pub const UPPER_A: u8 = 0x41;

pub const UPPER_Z: u8 = 0x5a;

pub const LOWER_A: u8 = 0x61;

pub const LOWER_Z: u8 = 0x7a;

pub const DOT: u8 = 0x2e;

pub const UNDERSCORE: u8 = 0x5f;

pub const PERCENT: u8 = 0x25;

pub const PLUS: u8 = 0x2b;

pub const HYPHEN: u8 = 0x2d;

pub const AT_SIGN: u8 = 0x40;

/// Whether the length of `text` in bytes lies between `min` and `max`, both
/// allowed.
pub open spec fn length_within(text: Seq<char>, min: nat, max: nat) -> bool {
    min <= byte_len(text) <= max
}

/// An ASCII digit.
pub open spec fn is_digit(b: u8) -> bool {
    DIGIT_0 <= b <= DIGIT_9
}

/// An ASCII letter.
pub open spec fn is_letter(b: u8) -> bool {
    (LOWER_A <= b <= LOWER_Z) || (UPPER_A <= b <= UPPER_Z)
}

/// What may stand before the `@` of an address.
pub open spec fn is_local_byte(b: u8) -> bool {
    is_letter(b) || is_digit(b) || b == DOT || b == UNDERSCORE || b == PERCENT || b == PLUS || b == HYPHEN
}

/// What may stand between the `@` and the last dot of an address.
pub open spec fn is_domain_byte(b: u8) -> bool {
    is_letter(b) || is_digit(b) || b == DOT || b == HYPHEN
}

/// Whether `bytes` is an address with its `@` at `at` and its last dot at
/// `dot`: a name before the `@`, a domain between the two, and two or more
/// letters behind the dot, none of the three empty.
pub open spec fn is_address_split_at(bytes: Seq<u8>, at: int, dot: int) -> bool {
    &&& 0 < at
    &&& at + 1 < dot
    &&& dot + 2 < bytes.len()
    &&& bytes[at] == AT_SIGN
    &&& bytes[dot] == DOT
    &&& forall|i: int| 0 <= i < at ==> is_local_byte(#[trigger] bytes[i])
    &&& forall|i: int| at < i < dot ==> is_domain_byte(#[trigger] bytes[i])
    &&& forall|i: int| dot < i < bytes.len() ==> is_letter(#[trigger] bytes[i])
}

/// Whether `text` has the shape of an e-mail address, `name@domain.tld`.
pub open spec fn is_email(text: Seq<char>) -> bool {
    exists|at: int, dot: int| is_address_split_at(encode_utf8(text), at, dot)
}

/// Whether `text` is a phone number: nine digits and nothing else.
pub open spec fn is_phone_number(text: Seq<char>) -> bool {
    &&& byte_len(text) == 9
    &&& forall|i: int| 0 <= i < 9 ==> is_digit(#[trigger] encode_utf8(text)[i])
}

/// Tells whether the length of `text` in bytes lies between `min` and `max`.
pub fn has_length_within(text: &str, min: usize, max: usize) -> (ok: bool)
    ensures
        ok == length_within(text@, min as nat, max as nat),
{
    let length = text.as_bytes().len();
    min <= length && length <= max
}

/// Tells whether `b` is an ASCII digit.
fn digit(b: u8) -> (ok: bool)
    ensures
        ok == is_digit(b),
{
    DIGIT_0 <= b && b <= DIGIT_9
}

/// Tells whether `b` is an ASCII letter.
fn letter(b: u8) -> (ok: bool)
    ensures
        ok == is_letter(b),
{
    (LOWER_A <= b && b <= LOWER_Z) || (UPPER_A <= b && b <= UPPER_Z)
}

/// Tells whether `b` may stand before the `@` of an address.
fn local_byte(b: u8) -> (ok: bool)
    ensures
        ok == is_local_byte(b),
{
    letter(b) || digit(b) || b == DOT || b == UNDERSCORE || b == PERCENT || b == PLUS || b == HYPHEN
}

/// Tells whether `b` may stand between the `@` and the last dot of an
/// address.
fn domain_byte(b: u8) -> (ok: bool)
    ensures
        ok == is_domain_byte(b),
{
    letter(b) || digit(b) || b == DOT || b == HYPHEN
}

/// Tells whether `text` is a phone number.
pub fn is_valid_phone_number(text: &str) -> (ok: bool)
    ensures
        ok == is_phone_number(text@),
{
    let bytes = text.as_bytes();
    if bytes.len() != 9 {
        return false;
    }
    let mut i: usize = 0;
    while i < 9
        invariant
            i <= 9,
            bytes.len() == 9,
            bytes@ == encode_utf8(text@),
            forall|j: int| 0 <= j < i ==> is_digit(#[trigger] bytes@[j]),
        decreases 9 - i,
    {
        if !digit(bytes[i]) {
            return false;
        }
        i += 1;
    }
    true
}

/// Tells whether `text` has the shape of an e-mail address.
#[verifier::loop_isolation(false)]
pub fn is_valid_email(text: &str) -> (ok: bool)
    ensures
        ok == is_email(text@),
{
    let bytes = text.as_bytes();
    let n = bytes.len();
    // The name: everything before the first byte that may not stand in it.
    let mut at: usize = 0;
    while at < n && local_byte(bytes[at])
        invariant
            at <= n,
            n == bytes.len(),
            forall|j: int| 0 <= j < at ==> is_local_byte(#[trigger] bytes@[j]),
        decreases n - at,
    {
        at += 1;
    }
    // The letters at the end: everything behind the last byte that is none.
    let mut dot: usize = n;
    while dot > 0 && letter(bytes[dot - 1])
        invariant
            dot <= n,
            n == bytes.len(),
            forall|j: int| dot <= j < n ==> is_letter(#[trigger] bytes@[j]),
        decreases dot,
    {
        dot -= 1;
    }
    // `dot` is now one behind the place where the last dot must stand.
    if at == 0 || at >= n || bytes[at] != AT_SIGN || dot == 0 || bytes[dot - 1] != DOT || dot <= at
        || dot - at < 3 || n - dot < 2 {
        proof {
            assert forall|a: int, d: int| !is_address_split_at(bytes@, a, d) by {
                if is_address_split_at(bytes@, a, d) {
                    lemma_split_is_unique(bytes@, a, d, at as int, dot as int);
                }
            }
        }
        return false;
    }
    let last_dot = dot - 1;
    let mut i: usize = at + 1;
    while i < last_dot
        invariant
            at < i <= last_dot,
            last_dot < n,
            n == bytes.len(),
            forall|j: int| at < j < i ==> is_domain_byte(#[trigger] bytes@[j]),
        decreases last_dot - i,
    {
        if !domain_byte(bytes[i]) {
            proof {
                assert forall|a: int, d: int| !is_address_split_at(bytes@, a, d) by {
                    if is_address_split_at(bytes@, a, d) {
                        lemma_split_is_unique(bytes@, a, d, at as int, dot as int);
                        assert(is_domain_byte(bytes@[i as int]));
                    }
                }
            }
            return false;
        }
        i += 1;
    }
    assert(is_address_split_at(bytes@, at as int, last_dot as int));
    true
}

/// An address splits in one way only: its `@` is the first byte that may not
/// stand in a name, and its last dot the last byte that is no letter.
proof fn lemma_split_is_unique(bytes: Seq<u8>, a: int, d: int, at: int, dot: int)
    requires
        is_address_split_at(bytes, a, d),
        0 <= at <= bytes.len(),
        0 <= dot <= bytes.len(),
        forall|j: int| 0 <= j < at ==> is_local_byte(#[trigger] bytes[j]),
        at < bytes.len() ==> !is_local_byte(bytes[at]),
        forall|j: int| dot <= j < bytes.len() ==> is_letter(#[trigger] bytes[j]),
        dot > 0 ==> !is_letter(bytes[dot - 1]),
    ensures
        a == at,
        d == dot - 1,
{
    assert(!is_local_byte(bytes[a]));
    if at < a {
        assert(is_local_byte(bytes[at]));
    }
    if a < at {
        assert(is_local_byte(bytes[a]));
    }
    assert(!is_letter(bytes[d]));
    if d < dot - 1 {
        assert(is_letter(bytes[dot - 1]));
    }
    if d >= dot {
        assert(is_letter(bytes[d]));
    }
}

} // verus!
