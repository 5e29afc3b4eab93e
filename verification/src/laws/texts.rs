//! Texts: white space, words, lines, capitals, numerals, and the codes of stations and clouds.
use vstd::arithmetic::power::{lemma_pow0, lemma_pow1, lemma_pow_positive, pow};
use vstd::prelude::*;
use crate::domain::{cloud_fraction, StationId};
use crate::laws::numbers::{exponent_bits, fraction_bits, number_of};
use crate::numeral::{digits, int_text, joined, left_aligned, right_aligned, zero_padded};
use crate::order::dictionary;
use crate::text::{
    byte_len, is_space, lemma_position_at, lemma_trim_end, lemma_trim_start, lemma_word_len, lines,
    replaced, split_once, trim, trim_end, trim_start, upper, word_len, words,
};

verus! {

/// Blanks and the ends of lines are white space; the printed characters of ASCII are not.
pub proof fn law_printed_characters_are_no_white_space(c: char)
    ensures
        is_space(' '),
        is_space('\t'),
        is_space('\n'),
        is_space('\r'),
        '!' <= c <= '~' ==> !is_space(c),
{
}

/// Trimming takes white space away at both ends and nothing else.
pub proof fn law_trimming_takes_white_space_away(s: Seq<char>)
    ensures
        exists|n: int|
            {
                &&& 0 <= n <= s.len() - trim(s).len()
                &&& trim(s) == #[trigger] s.subrange(n, n + trim(s).len())
                &&& forall|i: int| 0 <= i < n ==> is_space(#[trigger] s[i])
                &&& forall|i: int| n + trim(s).len() <= i < s.len() ==> is_space(#[trigger] s[i])
            },
        trim(s).len() > 0 ==> !is_space(trim(s)[0]) && !is_space(trim(s).last()),
{
    let t = trim_start(s);
    lemma_trim_start(s);
    lemma_trim_end(t);
    lemma_trim_end_cuts(t);
    let n = s.len() - t.len();
    let m = trim(s).len() as int;
    assert(trim(s) =~= s.subrange(n, n + m));
    assert forall|i: int| n + m <= i < s.len() implies is_space(#[trigger] s[i]) by {
        assert(t[i - n] == s[i]);
    }
    if m > 0 {
        assert(trim(s)[0] == t[0]);
    }
}

proof fn lemma_trim_end_cuts(t: Seq<char>)
    ensures
        forall|i: int| trim_end(t).len() <= i < t.len() ==> is_space(#[trigger] t[i]),
    decreases t.len(),
{
    if t.len() > 0 && is_space(t.last()) {
        let rest = t.drop_last();
        lemma_trim_end_cuts(rest);
        assert forall|i: int| trim_end(t).len() <= i < t.len()
            implies is_space(#[trigger] t[i]) by {
            if i < rest.len() {
                assert(rest[i] == t[i]);
            }
        }
    }
}

/// A word of printed characters, then a blank, then a text: the words are this word and those of
/// the text. A word alone is its only word, and a blank in front adds none.
pub proof fn law_words_stand_between_blanks(word: Seq<char>, rest: Seq<char>)
    requires
        word.len() > 0,
        forall|i: int| 0 <= i < word.len() ==> '!' <= #[trigger] word[i] <= '~',
    ensures
        words(word + seq![' '] + rest) == seq![word] + words(rest),
        words(word) == seq![word],
        words(seq![' '] + rest) == words(rest),
        words(Seq::<char>::empty()) == Seq::<Seq<char>>::empty(),
{
    lemma_blank_in_front(rest);
    let s = word + seq![' '] + rest;
    assert(s[0] == word[0]);
    assert(trim_start(s) == s);
    let n = word.len() as int;
    lemma_word_len(s);
    assert(word_len(s) == n) by {
        let k = word_len(s) as int;
        if k < n {
            assert(s[k] == word[k]);
        } else if k > n {
            assert(s[n] == ' ');
        }
    }
    assert(s.take(n) =~= word);
    assert(s.skip(n) =~= seq![' '] + rest);
    assert(trim_start(word) == word);
    lemma_word_len(word);
    assert(word_len(word) == n) by {
        let k = word_len(word) as int;
        if k < n {
            assert('!' <= word[k] <= '~');
        }
    }
    assert(word.take(n) =~= word);
    assert(word.skip(n) =~= Seq::<char>::empty());
    assert(words(Seq::<char>::empty()) =~= Seq::<Seq<char>>::empty());
    assert(words(word) =~= seq![word]);
}

proof fn lemma_blank_in_front(rest: Seq<char>)
    ensures
        words(seq![' '] + rest) == words(rest),
{
    let s = seq![' '] + rest;
    assert(s.drop_first() =~= rest);
    assert(trim_start(s) == trim_start(rest));
}

/// A line, then a line feed or a carriage return and a line feed, then a text: the lines are this
/// line and those of the text.
pub proof fn law_lines_end_in_line_feeds(line: Seq<char>, rest: Seq<char>)
    requires
        forall|i: int| 0 <= i < line.len() ==> #[trigger] line[i] != '\n',
        line.len() > 0 ==> line.last() != '\r',
    ensures
        lines(line + seq!['\n'] + rest) == seq![line] + lines(rest),
        lines(line + seq!['\r', '\n'] + rest) == seq![line] + lines(rest),
        line.len() > 0 ==> lines(line) == seq![line],
        lines(Seq::<char>::empty()) == Seq::<Seq<char>>::empty(),
{
    let n = line.len() as int;
    let s = line + seq!['\n'] + rest;
    assert forall|i: int| 0 <= i < n implies #[trigger] s[i] != '\n' by {
        assert(s[i] == line[i]);
    }
    lemma_position_at(s, '\n', n);
    assert(s.take(n) =~= line);
    assert(s.skip(n + 1) =~= rest);
    let t = line + seq!['\r', '\n'] + rest;
    assert forall|i: int| 0 <= i < n + 1 implies #[trigger] t[i] != '\n' by {
        if i < n {
            assert(t[i] == line[i]);
        }
    }
    lemma_position_at(t, '\n', n + 1);
    assert(t.take(n + 1) =~= line.push('\r'));
    assert(line.push('\r').drop_last() =~= line);
    assert(t.skip(n + 2) =~= rest);
    if n > 0 {
        lemma_position_at(line, '\n', n);
    }
}

/// A text with a character that its front does not hold is cut there.
pub proof fn law_texts_are_cut_at_the_first(front: Seq<char>, c: char, back: Seq<char>)
    requires
        forall|i: int| 0 <= i < front.len() ==> #[trigger] front[i] != c,
    ensures
        split_once(front + seq![c] + back, c) == Some((front, back)),
        split_once(front, c) is None,
{
    let n = front.len() as int;
    let s = front + seq![c] + back;
    assert forall|i: int| 0 <= i < n implies #[trigger] s[i] != c by {
        assert(s[i] == front[i]);
    }
    lemma_position_at(s, c, n);
    lemma_position_at(front, c, n);
    assert(s.take(n) =~= front);
    assert(s.skip(n + 1) =~= back);
}

/// Capitals: each small letter of ASCII becomes the capital that stands thirty-two places before
/// it, and every other character stays.
pub proof fn law_small_letters_become_capitals(s: Seq<char>, i: int)
    requires
        0 <= i < s.len(),
    ensures
        upper(s).len() == s.len(),
        'a' <= s[i] <= 'z' ==> upper(s)[i] as int == s[i] as int - 32,
        !('a' <= s[i] <= 'z') ==> upper(s)[i] == s[i],
{
}

/// Replacing a character leaves none of it, where what is put in its place holds none, and leaves a
/// text without it alone.
pub proof fn law_replaced_characters_are_gone(s: Seq<char>, c: char, with: Seq<char>)
    requires
        forall|i: int| 0 <= i < with.len() ==> #[trigger] with[i] != c,
    ensures
        forall|i: int| 0 <= i < replaced(s, c, with).len()
            ==> #[trigger] replaced(s, c, with)[i] != c,
        (forall|i: int| 0 <= i < s.len() ==> #[trigger] s[i] != c) ==> replaced(s, c, with) == s,
    decreases s.len(),
{
    if s.len() > 0 {
        let front = s.drop_last();
        law_replaced_characters_are_gone(front, c, with);
        let before = replaced(front, c, with);
        let all = replaced(s, c, with);
        assert forall|i: int| 0 <= i < all.len() implies #[trigger] all[i] != c by {
            if i < before.len() {
                assert(all[i] == before[i]);
            } else if s.last() == c {
                assert(all[i] == with[i - before.len()]);
            }
        }
        if forall|i: int| 0 <= i < s.len() ==> #[trigger] s[i] != c {
            assert(s[s.len() - 1] != c);
            assert forall|i: int| 0 <= i < front.len() implies #[trigger] front[i] != c by {
                assert(s[i] != c);
            }
            assert(front.push(s.last()) =~= s);
        }
    } else {
        assert(replaced(s, c, with) =~= s);
    }
}

/// A replaced character between two texts has the replacement in its place.
pub proof fn law_characters_are_replaced_in_place(
    left: Seq<char>,
    right: Seq<char>,
    c: char,
    with: Seq<char>,
)
    ensures
        replaced(left + seq![c] + right, c, with) == replaced(left, c, with) + with + replaced(
            right,
            c,
            with,
        ),
    decreases right.len(),
{
    let s = left + seq![c] + right;
    if right.len() == 0 {
        assert(s.drop_last() =~= left);
        assert(replaced(left, c, with) + with =~= replaced(left, c, with) + with + replaced(
            right,
            c,
            with,
        ));
    } else {
        let front = right.drop_last();
        law_characters_are_replaced_in_place(left, front, c, with);
        assert(s.drop_last() =~= left + seq![c] + front);
        assert(s.last() == right.last());
        assert(replaced(s, c, with) =~= replaced(left, c, with) + with + replaced(right, c, with));
    }
}

/// The digit of a decimal numeral that stands `k` places from its end is that of the tenth power,
/// and there are no digits without need.
pub proof fn law_numerals_are_decimal(n: nat, k: nat)
    ensures
        digits(n).len() > 0,
        k < digits(n).len() ==> digits(n)[digits(n).len() - 1 - k] as int == 48 + (n as int / pow(
            10,
            k,
        )) % 10,
        n < pow(10, digits(n).len()),
        n >= 10 ==> n >= pow(10, (digits(n).len() - 1) as nat),
        n < 10 ==> digits(n).len() == 1,
    decreases n,
{
    lemma_pow0(10);
    lemma_pow1(10);
    if n >= 10 {
        let m = n / 10;
        let len = digits(m).len();
        law_numerals_are_decimal(m, if k > 0 {
            (k - 1) as nat
        } else {
            0
        });
        assert(digits(n).len() == len + 1);
        assert(pow(10, len + 1) == 10 * pow(10, len)) by {
            reveal(pow);
        }
        if len > 1 {
            assert(pow(10, len) == 10 * pow(10, (len - 1) as nat)) by {
                reveal(pow);
            }
        }
        if k > 0 {
            let p = pow(10, (k - 1) as nat);
            lemma_pow_positive(10, (k - 1) as nat);
            assert(pow(10, k) == 10 * p) by {
                reveal(pow);
            }
            vstd::arithmetic::div_mod::lemma_div_denominator(n as int, 10, p);
            if k < digits(n).len() {
                assert(digits(n)[digits(n).len() - 1 - k] == digits(m)[len - 1 - (k - 1)]);
            }
        }
    }
}

/// A negative number has a hyphen in front of the numeral of its opposite.
pub proof fn law_negative_numerals_have_a_hyphen(i: int)
    ensures
        i >= 0 ==> int_text(i) == digits(i as nat),
        i < 0 ==> int_text(i) == seq!['-'] + digits((-i) as nat),
{
}

/// Joined texts: the first, the separator, and the others joined.
pub proof fn law_joined_texts_have_the_separator_between(
    first: Seq<char>,
    others: Seq<Seq<char>>,
    sep: Seq<char>,
)
    ensures
        others.len() == 0 ==> joined(seq![first] + others, sep) == first,
        others.len() > 0 ==> joined(seq![first] + others, sep) == first + sep + joined(others, sep),
        joined(Seq::<Seq<char>>::empty(), sep) == Seq::<char>::empty(),
    decreases others.len(),
{
    let all = seq![first] + others;
    if others.len() == 0 {
        assert(all.len() == 1);
    } else {
        let front = others.drop_last();
        assert(all.drop_last() =~= seq![first] + front);
        assert(all.last() == others.last());
        law_joined_texts_have_the_separator_between(first, front, sep);
        if front.len() == 0 {
            assert(others[0] == others.last());
            assert(joined(all, sep) =~= first + sep + joined(others, sep));
        } else {
            assert(joined(all, sep) =~= first + sep + joined(others, sep));
        }
    }
}

/// In the dictionary a text stands before another where it is its beginning, or where the first
/// character in which they differ comes first.
pub proof fn law_dictionaries_go_by_the_first_difference(
    common: Seq<char>,
    one: Seq<char>,
    other: Seq<char>,
)
    ensures
        dictionary(common, common + other),
        one.len() > 0 ==> !dictionary(common + one, common),
        one.len() > 0 && other.len() > 0 && one[0] < other[0] ==> dictionary(
            common + one,
            common + other,
        ) && !dictionary(common + other, common + one),
    decreases common.len(),
{
    if common.len() > 0 {
        let rest = common.drop_first();
        law_dictionaries_go_by_the_first_difference(rest, one, other);
        assert((common + one).drop_first() =~= rest + one);
        assert((common + other).drop_first() =~= rest + other);
    } else {
        assert(common + one =~= one);
        assert(common + other =~= other);
    }
}

/// Aligned texts are filled with blanks up to the width, and padded ones with zeros.
pub proof fn law_aligned_texts_are_filled_with_blanks(s: Seq<char>, width: int)
    ensures
        s.len() >= width ==> left_aligned(s, width) == s && right_aligned(s, width) == s
            && zero_padded(s, width) == s,
        s.len() < width ==> zero_padded(s, width).len() == width && zero_padded(s, width).skip(
            width - s.len(),
        ) == s && forall|i: int| 0 <= i < width - s.len()
            ==> #[trigger] zero_padded(s, width)[i] == '0',
        s.len() < width ==> {
            let (left, right) = (left_aligned(s, width), right_aligned(s, width));
            &&& left.len() == width
            &&& right.len() == width
            &&& left.take(s.len() as int) == s
            &&& right.skip(width - s.len()) == s
            &&& forall|i: int| s.len() <= i < width ==> #[trigger] left[i] == ' '
            &&& forall|i: int| 0 <= i < width - s.len() ==> #[trigger] right[i] == ' '
        },
{
    if s.len() >= width {
        assert(left_aligned(s, width) =~= s);
        assert(right_aligned(s, width) =~= s);
        assert(zero_padded(s, width) =~= s);
    } else {
        assert(zero_padded(s, width).skip(width - s.len()) =~= s);
        assert(left_aligned(s, width).take(s.len() as int) =~= s);
        assert(right_aligned(s, width).skip(width - s.len()) =~= s);
    }
}

/// A station: three letters get a `K` in front, a code of capitals and digits of another length
/// stays as it is, and the code has no small letters.
pub proof fn law_stations_have_codes_in_capitals(input: &str, station: StationId)
    requires
        call_ensures(StationId::new, (input,), station),
    ensures
        forall|i: int| 0 <= i < station@.len() ==> !('a' <= #[trigger] station@[i] <= 'z'),
        input@.len() == 3 && (forall|i: int| 0 <= i < 3 ==> 'A' <= #[trigger] input@[i] <= 'Z')
            ==> station@ == seq!['K'] + input@,
        input@.len() != 3 && (forall|i: int|
            0 <= i < input@.len() ==> 'A' <= #[trigger] input@[i] <= 'Z' || '0' <= input@[i] <= '9')
            ==> station@ == input@,
{
    let s = input@;
    let code = upper(trim(s));
    assert forall|i: int| 0 <= i < station@.len()
        implies !('a' <= #[trigger] station@[i] <= 'z') by {
        if station@ == code {
            law_small_letters_become_capitals(trim(s), i);
            lemma_capital(trim(s)[i]);
        } else if i > 0 {
            assert(station@[i] == code[i - 1]);
            law_small_letters_become_capitals(trim(s), i - 1);
            lemma_capital(trim(s)[i - 1]);
        }
    }
    if forall|i: int| 0 <= i < s.len() ==> 'A' <= #[trigger] s[i] <= 'Z' || '0' <= s[i] <= '9' {
        if s.len() > 0 {
            assert('A' <= s[0] <= 'Z' || '0' <= s[0] <= '9');
            assert('A' <= s[s.len() - 1] <= 'Z' || '0' <= s[s.len() - 1] <= '9');
        }
        crate::text::lemma_trim_fixed(s);
        assert(upper(s) =~= s);
    }
    if s.len() == 3 && (forall|i: int| 0 <= i < 3 ==> 'A' <= #[trigger] s[i] <= 'Z') {
        assert('A' <= s[0] <= 'Z' && 'A' <= s[1] <= 'Z' && 'A' <= s[2] <= 'Z');
        crate::text::lemma_trim_fixed(s);
        assert(upper(s) =~= s);
    }
}

proof fn lemma_capital(c: char)
    ensures
        !('a' <= crate::text::upper_char(c) <= 'z'),
{
}

/// The one-minute archive knows a station of four bytes whose code starts with `K` by the rest of
/// the code, and any other by the whole.
pub proof fn law_the_one_minute_archive_drops_a_leading_k(station: &StationId, code: &str)
    requires
        call_ensures(StationId::as_iem_id, (station,), code),
    ensures
        byte_len(station@) == 4 && station@.len() > 0 && station@[0] == 'K' ==> seq!['K'] + code@
            == station@,
        !(byte_len(station@) == 4 && station@.len() > 0 && station@[0] == 'K')
            ==> code@ == station@,
{
    if byte_len(station@) == 4 && station@.len() > 0 && station@[0] == 'K' {
        assert(seq!['K'] + station@.skip(1) =~= station@);
    }
}

/// The codes of clouds stand for none of the sky, an eighth, three eighths, three quarters and all
/// of it.
pub proof fn law_cloud_codes_stand_for_shares_of_the_sky()
    ensures
        ({
            let whole = number_of(cloud_fraction("OVC"@)->0);
            &&& cloud_fraction("OVC"@) is Some
            &&& whole > 0
            &&& exponent_bits(cloud_fraction("OVC"@)->0) == 1023
            &&& fraction_bits(cloud_fraction("OVC"@)->0) == 0
            &&& cloud_fraction("VV"@) == cloud_fraction("OVC"@)
            &&& cloud_fraction("CLR"@) is Some && number_of(cloud_fraction("CLR"@)->0) == 0
            &&& cloud_fraction("SKC"@) is Some && number_of(cloud_fraction("SKC"@)->0) == 0
            &&& cloud_fraction("FEW"@) is Some && 8 * number_of(cloud_fraction("FEW"@)->0) == whole
            &&& cloud_fraction("SCT"@) is Some && 8 * number_of(cloud_fraction("SCT"@)->0) == 3
                * whole
            &&& cloud_fraction("BKN"@) is Some && 4 * number_of(cloud_fraction("BKN"@)->0) == 3
                * whole
        }),
{
    reveal_strlit("OVC");
    reveal_strlit("VV");
    reveal_strlit("CLR");
    reveal_strlit("SKC");
    reveal_strlit("FEW");
    reveal_strlit("SCT");
    reveal_strlit("BKN");
    lemma_code_stays("OVC"@);
    lemma_code_stays("VV"@);
    lemma_code_stays("CLR"@);
    lemma_code_stays("SKC"@);
    lemma_code_stays("FEW"@);
    lemma_code_stays("SCT"@);
    lemma_code_stays("BKN"@);
    assert("OVC"@[0] == 'O' && "CLR"@[0] == 'C' && "SKC"@[0] == 'S' && "SKC"@[1] == 'K'
        && "FEW"@[0] == 'F' && "SCT"@[0] == 'S' && "SCT"@[1] == 'C' && "BKN"@[0] == 'B'
            && "VV"@.len()
        == 2);
    let p = vstd::arithmetic::power2::pow2(1019) as int;
    vstd::arithmetic::power2::lemma_pow2_pos(1019);
    vstd::arithmetic::power2::lemma_pow2_unfold(1020);
    vstd::arithmetic::power2::lemma_pow2_unfold(1021);
    vstd::arithmetic::power2::lemma_pow2_unfold(1022);
    let few = cloud_fraction("FEW"@)->0;
    let sct = cloud_fraction("SCT"@)->0;
    let bkn = cloud_fraction("BKN"@)->0;
    let ovc = cloud_fraction("OVC"@)->0;
    let unit: int = 0x10_0000_0000_0000;
    assert(number_of(few) == unit * p);
    assert(number_of(ovc) == unit * (8 * p));
    assert(number_of(sct) == (unit + unit / 2) * (2 * p));
    assert(number_of(bkn) == (unit + unit / 2) * (4 * p));
    assert(unit * p > 0) by (nonlinear_arith)
        requires
            unit > 0,
            p > 0,
    ;
    assert(unit * (8 * p) == 8 * (unit * p)) by (nonlinear_arith);
    assert((unit + unit / 2) * (2 * p) == 3 * (unit * p)) by (nonlinear_arith)
        requires
            unit == 0x10_0000_0000_0000,
    ;
    assert((unit + unit / 2) * (4 * p) == 6 * (unit * p)) by (nonlinear_arith)
        requires
            unit == 0x10_0000_0000_0000,
    ;
}

proof fn lemma_code_stays(code: Seq<char>)
    requires
        code.len() > 0,
        forall|i: int| 0 <= i < code.len() ==> 'A' <= #[trigger] code[i] <= 'Z',
    ensures
        upper(trim(code)) == code,
{
    assert('A' <= code[0] <= 'Z');
    assert('A' <= code[code.len() - 1] <= 'Z');
    crate::text::lemma_trim_fixed(code);
    assert(upper(code) =~= code);
}

} // verus!
