//! Decimal numerals: writing and reading whole numbers, and padding to a width.
use vstd::prelude::*;

use crate::order::{dictionary, lemma_dictionary_parts};
use crate::text::{is_digit, texts, to_chars};

verus! {

pub open spec fn digit_char(d: int) -> char {
    (48 + d) as char
}

pub open spec fn digit_value(c: char) -> int {
    (c as int) - 48
}

/// The decimal numeral of `n`, without leading zeros.
pub open spec fn digits(n: nat) -> Seq<char>
    decreases n,
{
    if n < 10 {
        seq![digit_char(n as int)]
    } else {
        digits(n / 10).push(digit_char((n % 10) as int))
    }
}

/// The decimal numeral of `i`, with a sign where it is negative.
pub open spec fn int_text(i: int) -> Seq<char> {
    if i < 0 {
        seq!['-'] + digits((-i) as nat)
    } else {
        digits(i as nat)
    }
}

/// `c` written `n` times.
pub open spec fn repeated(c: char, n: int) -> Seq<char> {
    Seq::new(
        if n < 0 {
            0
        } else {
            n as nat
        },
        |i: int| c,
    )
}

/// `s` with zeros in front up to `width` characters.
pub open spec fn zero_padded(s: Seq<char>, width: int) -> Seq<char> {
    repeated('0', width - s.len()) + s
}

/// `s` with spaces in front up to `width` characters.
pub open spec fn right_aligned(s: Seq<char>, width: int) -> Seq<char> {
    repeated(' ', width - s.len()) + s
}

/// `s` with spaces behind it up to `width` characters.
pub open spec fn left_aligned(s: Seq<char>, width: int) -> Seq<char> {
    s + repeated(' ', width - s.len())
}

pub open spec fn all_digits(s: Seq<char>) -> bool {
    forall|i: int| 0 <= i < s.len() ==> is_digit(#[trigger] s[i])
}

/// The number that the digits of `s` stand for.
pub open spec fn digits_value(s: Seq<char>) -> nat
    decreases s.len(),
{
    if s.len() == 0 {
        0
    } else {
        (10 * digits_value(s.drop_last()) + digit_value(s.last())) as nat
    }
}

/// The whole number that `s` spells: digits, with at most one sign in front.
pub open spec fn int_value(s: Seq<char>) -> Option<int> {
    if s.len() == 0 {
        None
    } else if s[0] == '-' {
        if s.len() > 1 && all_digits(s.drop_first()) {
            Some(-(digits_value(s.drop_first()) as int))
        } else {
            None
        }
    } else if s[0] == '+' {
        if s.len() > 1 && all_digits(s.drop_first()) {
            Some(digits_value(s.drop_first()) as int)
        } else {
            None
        }
    } else if all_digits(s) {
        Some(digits_value(s) as int)
    } else {
        None
    }
}

pub proof fn lemma_digits(n: nat)
    ensures
        digits(n).len() > 0,
        all_digits(digits(n)),
        digits_value(digits(n)) == n,
    decreases n,
{
    if n < 10 {
        assert(digits(n).drop_last() =~= seq![]);
        assert(digits_value(digits(n).drop_last()) == 0);
    } else {
        lemma_digits(n / 10);
        let head = digits(n / 10);
        assert(digits(n).drop_last() =~= head);
        assert forall|i: int| 0 <= i < digits(n).len() implies is_digit(#[trigger] digits(n)[i]) by {
            if i < head.len() {
                assert(digits(n)[i] == head[i]);
            }
        }
    }
}

/// Reading back the numeral of a whole number gives that number.
pub proof fn law_int_text_reads_back(i: int)
    ensures
        int_value(int_text(i)) == Some(i),
{
    if i < 0 {
        lemma_digits((-i) as nat);
        assert(int_text(i).drop_first() =~= digits((-i) as nat));
    } else {
        lemma_digits(i as nat);
        assert(is_digit(digits(i as nat)[0]));
    }
}

/// Zeros in front of a numeral do not change its value, and it is made of digits still.
pub proof fn lemma_zero_padded(n: nat, width: int)
    ensures
        all_digits(zero_padded(digits(n), width)),
        zero_padded(digits(n), width).len() > 0,
        digits_value(zero_padded(digits(n), width)) == n,
{
    lemma_digits(n);
    lemma_zeros_in_front(width - digits(n).len(), digits(n));
    let padded = zero_padded(digits(n), width);
    let zeros = repeated('0', width - digits(n).len());
    assert forall|i: int| 0 <= i < padded.len() implies is_digit(#[trigger] padded[i]) by {
        if i >= zeros.len() {
            assert(padded[i] == digits(n)[i - zeros.len()]);
        }
    }
}

proof fn lemma_zeros_in_front(n: int, s: Seq<char>)
    ensures
        digits_value(repeated('0', n) + s) == digits_value(s),
    decreases s.len(), n,
{
    let all = repeated('0', n) + s;
    if s.len() > 0 {
        lemma_zeros_in_front(n, s.drop_last());
        assert(all.drop_last() =~= repeated('0', n) + s.drop_last());
        assert(all.last() == s.last());
    } else if n > 0 {
        lemma_zeros_in_front(n - 1, s);
        assert(all.drop_last() =~= repeated('0', n - 1) + s);
        assert(all.last() == '0');
    } else {
        assert(all =~= s);
    }
}

/// Numerals of one length stand in the dictionary as their numbers do.
pub proof fn lemma_numerals_in_the_dictionary(a: Seq<char>, b: Seq<char>)
    requires
        a.len() == b.len(),
        all_digits(a),
        all_digits(b),
    ensures
        dictionary(a, b) <==> digits_value(a) <= digits_value(b),
        a == b <==> digits_value(a) == digits_value(b),
    decreases a.len(),
{
    if a.len() == 0 {
        assert(a =~= b);
    } else {
        let (fore, back) = (a.drop_last(), b.drop_last());
        let (c, d) = (seq![a.last()], seq![b.last()]);
        assert(a =~= fore + c);
        assert(b =~= back + d);
        assert forall|i: int| 0 <= i < fore.len() implies is_digit(#[trigger] fore[i]) by {
            assert(fore[i] == a[i]);
        }
        assert forall|i: int| 0 <= i < back.len() implies is_digit(#[trigger] back[i]) by {
            assert(back[i] == b[i]);
        }
        lemma_numerals_in_the_dictionary(fore, back);
        lemma_dictionary_parts(fore, c, back, d);
        assert(is_digit(a[a.len() - 1]) && is_digit(b[b.len() - 1]));
        assert(dictionary(c.drop_first(), d.drop_first()));
        assert(dictionary(c, d) <==> a.last() <= b.last());
    }
}

/// A numeral holds neither slashes nor dots.
pub proof fn lemma_int_text_plain(i: int)
    ensures
        forall|k: int|
            0 <= k < int_text(i).len() ==> #[trigger] int_text(i)[k] != '/' && int_text(i)[k] != '.',
        int_text(i).len() > 0,
{
    if i < 0 {
        lemma_digits((-i) as nat);
    } else {
        lemma_digits(i as nat);
    }
}

/// The decimal numeral of `n`.
pub fn decimal(n: u128) -> (r: String)
    ensures
        r@ == digits(n as nat),
    decreases n,
{
    let d: u8 = (n % 10) as u8;
    let c: char = (48 + d) as char;
    if n < 10 {
        let mut r = String::new();
        r.push(c);
        assert(r@ =~= digits(n as nat));
        r
    } else {
        let mut r = decimal(n / 10);
        r.push(c);
        r
    }
}

/// The decimal numeral of `i`.
pub fn signed_decimal(i: i64) -> (r: String)
    ensures
        r@ == int_text(i as int),
{
    if i < 0 {
        let mut r = String::new();
        r.push('-');
        let magnitude: i128 = -(i as i128);
        let rest = decimal(magnitude as u128);
        r.append(rest.as_str());
        assert(r@ =~= int_text(i as int));
        r
    } else {
        decimal(i as u128)
    }
}

fn fill(c: char, n: usize) -> (r: String)
    ensures
        r@ == repeated(c, n as int),
{
    let mut r = String::new();
    let mut i: usize = 0;
    while i < n
        invariant
            i <= n,
            r@ == repeated(c, i as int),
        decreases n - i,
    {
        r.push(c);
        i += 1;
        assert(r@ =~= repeated(c, i as int));
    }
    assert(r@ =~= repeated(c, n as int));
    r
}

fn missing(text: &str, width: usize) -> (r: usize)
    ensures
        r == if text@.len() < width {
            width - text@.len()
        } else {
            0
        },
{
    let n = to_chars(text).len();
    if n < width {
        width - n
    } else {
        0
    }
}

/// `text` with zeros in front up to `width` characters.
pub fn pad_zeros(text: &str, width: usize) -> (r: String)
    ensures
        r@ == zero_padded(text@, width as int),
{
    let mut r = fill('0', missing(text, width));
    assert(r@ =~= repeated('0', width - text@.len()));
    r.append(text);
    r
}

/// `text` with spaces in front up to `width` characters.
pub fn align_right(text: &str, width: usize) -> (r: String)
    ensures
        r@ == right_aligned(text@, width as int),
{
    let mut r = fill(' ', missing(text, width));
    assert(r@ =~= repeated(' ', width - text@.len()));
    r.append(text);
    r
}

/// `text` with spaces behind it up to `width` characters.
pub fn align_left(text: &str, width: usize) -> (r: String)
    ensures
        r@ == left_aligned(text@, width as int),
{
    let mut r = String::new();
    r.append(text);
    let blanks = fill(' ', missing(text, width));
    assert(blanks@ =~= repeated(' ', width - text@.len()));
    r.append(blanks.as_str());
    assert(r@ =~= left_aligned(text@, width as int));
    r
}

/// The largest magnitude that `magnitude` keeps apart.
pub const MAGNITUDE_LIMIT: u64 = 0x1_0000_0000;

/// The value of a run of digits, or some number above the limit where it is above the limit.
fn magnitude(chars: &[char]) -> (r: Option<u64>)
    ensures
        r is Some <==> chars@.len() > 0 && all_digits(chars@),
        r matches Some(n) ==> (n == digits_value(chars@) || (n > MAGNITUDE_LIMIT && digits_value(
            chars@,
        ) > MAGNITUDE_LIMIT)),
{
    if chars.len() == 0 {
        return None;
    }
    let mut n: u64 = 0;
    let mut i: usize = 0;
    assert(chars@.take(0) =~= seq![]);
    while i < chars.len()
        invariant
            i <= chars@.len(),
            forall|k: int| 0 <= k < i ==> is_digit(#[trigger] chars@[k]),
            n <= 20 * MAGNITUDE_LIMIT,
            n == digits_value(chars@.take(i as int)) || (n > MAGNITUDE_LIMIT && digits_value(
                chars@.take(i as int),
            ) > MAGNITUDE_LIMIT),
        decreases chars@.len() - i,
    {
        let c: char = chars[i];
        if c < '0' || c > '9' {
            assert(!is_digit(chars@[i as int]));
            return None;
        }
        let u: u32 = c as u32;
        proof {
            let next = chars@.take(i + 1);
            assert(next.drop_last() =~= chars@.take(i as int));
            assert(next.last() == chars@[i as int]);
        }
        if n <= MAGNITUDE_LIMIT {
            n = 10 * n + (u - 48) as u64;
        }
        i += 1;
    }
    assert(chars@.take(chars@.len() as int) =~= chars@);
    Some(n)
}

/// The 32-bit number that `chars` spells.
pub fn parse_i32(chars: &[char]) -> (r: Option<i32>)
    ensures
        match int_value(chars@) {
            Some(v) => if i32::MIN <= v <= i32::MAX {
                r == Some(v as i32)
            } else {
                r is None
            },
            None => r is None,
        },
{
    if chars.len() == 0 {
        return None;
    }
    let first = chars[0];
    let signed = first == '-' || first == '+';
    let from: usize = if signed {
        1
    } else {
        0
    };
    let body = vstd::slice::slice_subrange(chars, from, chars.len());
    proof {
        if signed {
            assert(body@ =~= chars@.drop_first());
        } else {
            assert(body@ =~= chars@);
        }
    }
    match magnitude(body) {
        None => None,
        Some(n) => {
            if first == '-' {
                if n <= 0x8000_0000 {
                    Some((-(n as i64)) as i32)
                } else {
                    None
                }
            } else if n <= 0x7fff_ffff {
                Some(n as i32)
            } else {
                None
            }
        },
    }
}

/// The items with `sep` between each two of them.
pub open spec fn joined(items: Seq<Seq<char>>, sep: Seq<char>) -> Seq<char>
    decreases items.len(),
{
    if items.len() == 0 {
        seq![]
    } else if items.len() == 1 {
        items[0]
    } else {
        joined(items.drop_last(), sep) + sep + items.last()
    }
}

/// Joins the items with `sep` between each two of them.
pub fn join(items: &Vec<String>, sep: &str) -> (r: String)
    ensures
        r@ == joined(texts(items@), sep@),
{
    let mut r = String::new();
    let mut i: usize = 0;
    let ghost all = texts(items@);
    assert(all.take(0) =~= seq![]);
    while i < items.len()
        invariant
            i <= items@.len(),
            all == texts(items@),
            r@ == joined(all.take(i as int), sep@),
        decreases items@.len() - i,
    {
        assert(all.take(i + 1).drop_last() =~= all.take(i as int));
        assert(all.take(i + 1).last() == items@[i as int]@);
        if i > 0 {
            r.append(sep);
        }
        r.append(items[i].as_str());
        proof {
            if i == 0 {
                assert(r@ =~= joined(all.take(1), sep@));
            }
        }
        i += 1;
    }
    assert(all.take(all.len() as int) =~= all);
    r
}

} // verus!
