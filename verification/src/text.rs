//! Text helpers: the order and equality of identities, and decimal rendering
//! of numbers inside derived identifiers.

use vstd::prelude::*;
use vstd::string::*;
use vstd::utf8::*;

verus! {

/// Whether `a` comes before `b` from position `i` on, comparing byte by byte;
/// a sequence that ends first comes first.
pub open spec fn bytes_less_from(a: Seq<u8>, b: Seq<u8>, i: int) -> bool
    decreases a.len() - i,
{
    if i >= b.len() {
        false
    } else if i >= a.len() {
        true
    } else if a[i] != b[i] {
        a[i] < b[i]
    } else {
        bytes_less_from(a, b, i + 1)
    }
}

/// Lexicographic order on byte sequences.
pub open spec fn bytes_less(a: Seq<u8>, b: Seq<u8>) -> bool {
    bytes_less_from(a, b, 0)
}

/// The order of two texts: lexicographic by the bytes of their UTF-8 form.
pub open spec fn precedes(a: Seq<char>, b: Seq<char>) -> bool {
    bytes_less(encode_utf8(a), encode_utf8(b))
}

/// The number of bytes a text occupies in UTF-8.
pub open spec fn byte_len(s: Seq<char>) -> nat {
    encode_utf8(s).len()
}

/// Of two byte sequences, at most one comes before the other.
proof fn lemma_less_from_asymmetric(a: Seq<u8>, b: Seq<u8>, i: int)
    requires
        0 <= i,
    ensures
        !(bytes_less_from(a, b, i) && bytes_less_from(b, a, i)),
    decreases a.len() - i,
{
    if i < a.len() && i < b.len() && a[i] == b[i] {
        lemma_less_from_asymmetric(a, b, i + 1);
    }
}

/// Two byte sequences that agree up to `i`, and of which neither comes
/// before the other from `i` on, are the same.
proof fn lemma_less_from_total(a: Seq<u8>, b: Seq<u8>, i: int)
    requires
        0 <= i <= a.len(),
        i <= b.len(),
        a.take(i) == b.take(i),
        !bytes_less_from(a, b, i),
        !bytes_less_from(b, a, i),
    ensures
        a == b,
    decreases a.len() - i,
{
    if i < a.len() && i < b.len() {
        assert(a.take(i + 1) =~= a.take(i).push(a[i]));
        assert(b.take(i + 1) =~= b.take(i).push(b[i]));
        lemma_less_from_total(a, b, i + 1);
    } else {
        assert(a =~= a.take(i));
    }
}

/// No text comes before itself or before a text that comes before it.
pub proof fn lemma_precedes_asymmetric(a: Seq<char>, b: Seq<char>)
    ensures
        !(precedes(a, b) && precedes(b, a)),
{
    lemma_less_from_asymmetric(encode_utf8(a), encode_utf8(b), 0);
}

/// Two texts of which neither comes before the other are the same text.
pub proof fn lemma_precedes_total(a: Seq<char>, b: Seq<char>)
    requires
        !precedes(a, b),
        !precedes(b, a),
    ensures
        a == b,
{
    let x = encode_utf8(a);
    let y = encode_utf8(b);
    assert(x.take(0) =~= y.take(0));
    lemma_less_from_total(x, y, 0);
    encode_utf8_decode_utf8(a);
    encode_utf8_decode_utf8(b);
}

/// Compares two texts as `precedes` orders them.
pub fn str_precedes(a: &str, b: &str) -> (r: bool)
    ensures
        r == precedes(a@, b@),
{
    let x = a.as_bytes();
    let y = b.as_bytes();
    let mut i: usize = 0;
    while i < x.len() && i < y.len()
        invariant
            x@ == encode_utf8(a@),
            y@ == encode_utf8(b@),
            bytes_less(x@, y@) == bytes_less_from(x@, y@, i as int),
        decreases x.len() - i,
    {
        if x[i] != y[i] {
            return x[i] < y[i];
        }
        i += 1;
    }
    i < y.len()
}

/// Tells whether two texts hold the same characters.
pub fn str_equal(a: &str, b: &str) -> (r: bool)
    ensures
        r == (a@ == b@),
{
    let x = a.as_bytes();
    let y = b.as_bytes();
    proof {
        encode_utf8_decode_utf8(a@);
        encode_utf8_decode_utf8(b@);
    }
    if x.len() != y.len() {
        return false;
    }
    let mut i: usize = 0;
    while i < x.len()
        invariant
            x@ == encode_utf8(a@),
            y@ == encode_utf8(b@),
            x.len() == y.len(),
            i <= x.len(),
            x@.take(i as int) == y@.take(i as int),
        decreases x.len() - i,
    {
        if x[i] != y[i] {
            return false;
        }
        i += 1;
    }
    assert(x@ =~= x@.take(i as int));
    assert(y@ =~= y@.take(i as int));
    true
}

/// The texts of a list of strings, in order.
pub open spec fn texts(list: Seq<String>) -> Seq<Seq<char>> {
    list.map_values(|s: String| s@)
}

/// How many times `text` stands in `list`.
pub open spec fn occurrences(list: Seq<Seq<char>>, text: Seq<char>) -> nat
    decreases list.len(),
{
    if list.len() == 0 {
        0
    } else {
        occurrences(list.drop_last(), text) + if list.last() == text {
            1nat
        } else {
            0nat
        }
    }
}

/// A text that a list does not hold occurs in it zero times, and only such a
/// text does.
pub proof fn lemma_occurrences_zero(list: Seq<Seq<char>>, text: Seq<char>)
    ensures
        list.contains(text) <==> occurrences(list, text) > 0,
    decreases list.len(),
{
    if list.len() > 0 {
        let rest = list.drop_last();
        lemma_occurrences_zero(rest, text);
        if list.contains(text) {
            let i = choose|i: int| 0 <= i < list.len() && list[i] == text;
            if i < rest.len() {
                assert(rest[i] == text);
            }
        }
    }
}

/// Counting one member further adds one where that member is the text counted.
pub proof fn lemma_occurrences_step(list: Seq<Seq<char>>, i: int, text: Seq<char>)
    requires
        0 <= i < list.len(),
    ensures
        occurrences(list.take(i + 1), text) == occurrences(list.take(i), text) + if list[i]
            == text {
            1nat
        } else {
            0nat
        },
{
    assert(list.take(i + 1).drop_last() =~= list.take(i));
}

/// A text occurs in the front of a list at most as often as in the whole list.
pub proof fn lemma_occurrences_front(list: Seq<Seq<char>>, i: int, text: Seq<char>)
    requires
        0 <= i <= list.len(),
    ensures
        occurrences(list.take(i), text) <= occurrences(list, text),
    decreases list.len() - i,
{
    if i < list.len() {
        lemma_occurrences_step(list, i, text);
        lemma_occurrences_front(list, i + 1, text);
    } else {
        assert(list.take(i) =~= list);
    }
}

/// The character of one decimal digit.
pub open spec fn digit_char(d: nat) -> char {
    if d == 0 {
        '0'
    } else if d == 1 {
        '1'
    } else if d == 2 {
        '2'
    } else if d == 3 {
        '3'
    } else if d == 4 {
        '4'
    } else if d == 5 {
        '5'
    } else if d == 6 {
        '6'
    } else if d == 7 {
        '7'
    } else if d == 8 {
        '8'
    } else {
        '9'
    }
}

/// A number written in decimal, without sign or leading zeros.
pub open spec fn decimal(n: nat) -> Seq<char>
    decreases n,
{
    if n < 10 {
        seq![digit_char(n)]
    } else {
        decimal(n / 10).push(digit_char(n % 10))
    }
}

/// Whether `mark` stands nowhere in `text`.
pub open spec fn holds_no(text: Seq<char>, mark: char) -> bool {
    forall|i: int| 0 <= i < text.len() ==> text[i] != mark
}

/// A number in decimal is made of digits: it is not empty and holds no
/// colon.
pub proof fn lemma_decimal_is_digits(n: nat)
    ensures
        decimal(n).len() >= 1,
        holds_no(decimal(n), ':'),
    decreases n,
{
    if n >= 10 {
        lemma_decimal_is_digits(n / 10);
    }
}

/// Different numbers are written differently.
pub proof fn lemma_decimal_injective(n: nat, m: nat)
    requires
        decimal(n) == decimal(m),
    ensures
        n == m,
    decreases n,
{
    if n < 10 && m < 10 {
        assert(decimal(n)[0] == digit_char(n));
        assert(decimal(m)[0] == digit_char(m));
    } else if n < 10 {
        lemma_decimal_is_digits(m / 10);
        assert(decimal(m).len() >= 2);
    } else if m < 10 {
        lemma_decimal_is_digits(n / 10);
        assert(decimal(n).len() >= 2);
    } else {
        let a = decimal(n / 10);
        let b = decimal(m / 10);
        assert(a.push(digit_char(n % 10)).drop_last() =~= a);
        assert(b.push(digit_char(m % 10)).drop_last() =~= b);
        assert(a.push(digit_char(n % 10)).last() == digit_char(n % 10));
        assert(b.push(digit_char(m % 10)).last() == digit_char(m % 10));
        assert(a == b);
        assert(digit_char(n % 10) == digit_char(m % 10));
        lemma_decimal_injective(n / 10, m / 10);
        assert(n % 10 == m % 10);
        assert(n == 10 * (n / 10) + n % 10);
        assert(m == 10 * (m / 10) + m % 10);
    }
}

/// A text that is cut at a mark is cut in one way only, where the mark
/// stands in neither of the two fronts.
pub proof fn lemma_cut_at_first_mark(
    front1: Seq<char>,
    rest1: Seq<char>,
    front2: Seq<char>,
    rest2: Seq<char>,
    mark: char,
)
    requires
        front1 + seq![mark] + rest1 == front2 + seq![mark] + rest2,
        holds_no(front1, mark),
        holds_no(front2, mark),
    ensures
        front1 == front2,
        rest1 == rest2,
{
    let whole1 = front1 + seq![mark] + rest1;
    let whole2 = front2 + seq![mark] + rest2;
    assert(whole1[front1.len() as int] == mark);
    assert(whole2[front2.len() as int] == mark);
    if front1.len() < front2.len() {
        assert(whole2[front1.len() as int] == front2[front1.len() as int]);
    } else if front2.len() < front1.len() {
        assert(whole1[front2.len() as int] == front1[front2.len() as int]);
    }
    assert(front1 =~= front2) by {
        assert forall|i: int| 0 <= i < front1.len() implies front1[i] == front2[i] by {
            assert(whole1[i] == front1[i]);
            assert(whole2[i] == front2[i]);
        }
    }
    assert(rest1.len() == rest2.len()) by {
        assert(whole1.len() == front1.len() + 1 + rest1.len());
        assert(whole2.len() == front2.len() + 1 + rest2.len());
    }
    assert(rest1 =~= rest2) by {
        assert forall|i: int| 0 <= i < rest1.len() implies rest1[i] == rest2[i] by {
            assert(whole1[front1.len() + 1 + i] == rest1[i]);
            assert(whole2[front2.len() + 1 + i] == rest2[i]);
        }
    }
}

/// A text that holds a mark once is cut at it in one way only.
pub proof fn lemma_cut_at_only_mark(
    front1: Seq<char>,
    rest1: Seq<char>,
    front2: Seq<char>,
    rest2: Seq<char>,
    mark: char,
)
    requires
        front1 + seq![mark] + rest1 == front2 + seq![mark] + rest2,
        holds_no(front2, mark),
        holds_no(rest2, mark),
    ensures
        front1 == front2,
        rest1 == rest2,
{
    let whole1 = front1 + seq![mark] + rest1;
    let whole2 = front2 + seq![mark] + rest2;
    assert(whole1.len() == front1.len() + 1 + rest1.len());
    assert(whole2.len() == front2.len() + 1 + rest2.len());
    assert(whole1[front1.len() as int] == mark);
    if front1.len() < front2.len() {
        assert(whole2[front1.len() as int] == front2[front1.len() as int]);
    } else if front2.len() < front1.len() {
        let i = front1.len() as int;
        assert(whole2[i] == rest2[i - front2.len() - 1]);
    }
    assert(front1 =~= front2) by {
        assert forall|i: int| 0 <= i < front1.len() implies front1[i] == front2[i] by {
            assert(whole1[i] == front1[i]);
            assert(whole2[i] == front2[i]);
        }
    }
    assert(rest1 =~= rest2) by {
        assert forall|i: int| 0 <= i < rest1.len() implies rest1[i] == rest2[i] by {
            assert(whole1[front1.len() + 1 + i] == rest1[i]);
            assert(whole2[front2.len() + 1 + i] == rest2[i]);
        }
    }
}

/// The text of one decimal digit.
fn digit_str(d: u64) -> (s: &'static str)
    requires
        d < 10,
    ensures
        s@ == seq![digit_char(d as nat)],
{
    proof {
        reveal_strlit("0");
        reveal_strlit("1");
        reveal_strlit("2");
        reveal_strlit("3");
        reveal_strlit("4");
        reveal_strlit("5");
        reveal_strlit("6");
        reveal_strlit("7");
        reveal_strlit("8");
        reveal_strlit("9");
    }
    if d == 0 {
        "0"
    } else if d == 1 {
        "1"
    } else if d == 2 {
        "2"
    } else if d == 3 {
        "3"
    } else if d == 4 {
        "4"
    } else if d == 5 {
        "5"
    } else if d == 6 {
        "6"
    } else if d == 7 {
        "7"
    } else if d == 8 {
        "8"
    } else {
        "9"
    }
}

/// Writes a number in decimal.
pub fn decimal_string(n: u64) -> (s: String)
    ensures
        s@ == decimal(n as nat),
{
    let mut s = String::from_str(digit_str(n % 10));
    let mut rest: u64 = n / 10;
    while rest > 0
        invariant
            decimal(n as nat) == if rest == 0 {
                s@
            } else {
                decimal(rest as nat) + s@
            },
        decreases rest,
    {
        let d = String::from_str(digit_str(rest % 10));
        s = d.concat(s.as_str());
        rest = rest / 10;
    }
    s
}

} // verus!
