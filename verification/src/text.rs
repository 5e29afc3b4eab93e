//! Text as sequences of characters: trimming, splitting and matching.
//!
//! Every function here is total and works on characters, so that the contracts can speak of
//! `Seq<char>`; lengths in bytes are those of the UTF-8 encoding.
use vstd::prelude::*;
use vstd::slice::{slice_subrange, slice_to_vec};

verus! {

/// `String::push` appends one character to the end of the string.
pub assume_specification[ String::push ](text: &mut String, c: char)
    ensures
        final(text)@ == old(text)@.push(c),
;

/// The characters that Unicode gives the `White_Space` property.
pub open spec fn is_space(c: char) -> bool {
    let u = c as u32;
    ||| 0x09 <= u <= 0x0d
    ||| u == 0x20
    ||| u == 0x85
    ||| u == 0xa0
    ||| u == 0x1680
    ||| 0x2000 <= u <= 0x200a
    ||| u == 0x2028
    ||| u == 0x2029
    ||| u == 0x202f
    ||| u == 0x205f
    ||| u == 0x3000
}

pub open spec fn is_letter(c: char) -> bool {
    ('A' <= c && c <= 'Z') || ('a' <= c && c <= 'z')
}

pub open spec fn is_digit(c: char) -> bool {
    '0' <= c && c <= '9'
}

/// An ASCII small letter becomes its capital; every other character stays.
pub open spec fn upper_char(c: char) -> char {
    if 'a' <= c && c <= 'z' {
        ((c as u32) - 32) as char
    } else {
        c
    }
}

pub open spec fn upper(s: Seq<char>) -> Seq<char> {
    s.map_values(|c: char| upper_char(c))
}

pub open spec fn trim_start(s: Seq<char>) -> Seq<char>
    decreases s.len(),
{
    if s.len() > 0 && is_space(s[0]) {
        trim_start(s.drop_first())
    } else {
        s
    }
}

pub open spec fn trim_end(s: Seq<char>) -> Seq<char>
    decreases s.len(),
{
    if s.len() > 0 && is_space(s.last()) {
        trim_end(s.drop_last())
    } else {
        s
    }
}

pub open spec fn trim(s: Seq<char>) -> Seq<char> {
    trim_end(trim_start(s))
}

/// The length of the longest prefix of `s` without white space.
pub open spec fn word_len(s: Seq<char>) -> nat
    decreases s.len(),
{
    if s.len() > 0 && !is_space(s[0]) {
        1 + word_len(s.drop_first())
    } else {
        0
    }
}

pub proof fn lemma_word_len(s: Seq<char>)
    ensures
        word_len(s) <= s.len(),
        forall|i: int| 0 <= i < word_len(s) ==> !is_space(#[trigger] s[i]),
        word_len(s) < s.len() ==> is_space(s[word_len(s) as int]),
    decreases s.len(),
{
    if s.len() > 0 && !is_space(s[0]) {
        let rest = s.drop_first();
        lemma_word_len(rest);
        assert forall|i: int| 0 <= i < word_len(s) implies !is_space(#[trigger] s[i]) by {
            if i > 0 {
                assert(s[i] == rest[i - 1]);
            }
        }
    }
}

/// The maximal runs of characters that are not white space, in order.
pub open spec fn words(s: Seq<char>) -> Seq<Seq<char>>
    decreases s.len(),
    via words_decreases
{
    let t = trim_start(s);
    if t.len() == 0 {
        seq![]
    } else {
        seq![t.take(word_len(t) as int)] + words(t.skip(word_len(t) as int))
    }
}

#[via_fn]
proof fn words_decreases(s: Seq<char>) {
    lemma_trim_start(s);
    lemma_word_len(trim_start(s));
}

pub proof fn lemma_trim_start(s: Seq<char>)
    ensures
        trim_start(s).len() <= s.len(),
        trim_start(s) == s.skip(s.len() - trim_start(s).len()),
        trim_start(s).len() > 0 ==> !is_space(trim_start(s)[0]),
        forall|i: int| 0 <= i < s.len() - trim_start(s).len() ==> is_space(#[trigger] s[i]),
    decreases s.len(),
{
    if s.len() > 0 && is_space(s[0]) {
        let rest = s.drop_first();
        lemma_trim_start(rest);
        let n = s.len() - trim_start(s).len();
        assert(rest.skip(n - 1) =~= s.skip(n));
        assert forall|i: int| 0 <= i < n implies is_space(#[trigger] s[i]) by {
            if i > 0 {
                assert(s[i] == rest[i - 1]);
            }
        }
    } else {
        assert(s.skip(0) =~= s);
    }
}

/// Counting leading white space from position `k` on finds where `trim_start` begins.
proof fn lemma_trim_start_at(s: Seq<char>, k: int)
    requires
        0 <= k <= s.len(),
        forall|i: int| 0 <= i < k ==> is_space(#[trigger] s[i]),
        k < s.len() ==> !is_space(s[k]),
    ensures
        trim_start(s) == s.skip(k),
    decreases k,
{
    if k > 0 {
        assert(is_space(s[0]));
        let rest = s.drop_first();
        assert forall|i: int| 0 <= i < k - 1 implies is_space(#[trigger] rest[i]) by {
            assert(rest[i] == s[i + 1]);
        }
        lemma_trim_start_at(rest, k - 1);
        assert(rest.skip(k - 1) =~= s.skip(k));
    } else {
        assert(s.skip(0) =~= s);
    }
}

pub proof fn lemma_trim_end(s: Seq<char>)
    ensures
        trim_end(s).len() <= s.len(),
        trim_end(s) == s.take(trim_end(s).len() as int),
        trim_end(s).len() > 0 ==> !is_space(trim_end(s).last()),
    decreases s.len(),
{
    if s.len() > 0 && is_space(s.last()) {
        lemma_trim_end(s.drop_last());
        let n = trim_end(s).len() as int;
        assert(s.drop_last().take(n) =~= s.take(n));
    } else {
        assert(s.take(s.len() as int) =~= s);
    }
}

proof fn lemma_trim_end_at(s: Seq<char>, k: int)
    requires
        0 <= k <= s.len(),
        forall|i: int| k <= i < s.len() ==> is_space(#[trigger] s[i]),
        k > 0 ==> !is_space(s[k - 1]),
    ensures
        trim_end(s) == s.take(k),
    decreases s.len() - k,
{
    if k < s.len() {
        let rest = s.drop_last();
        assert(is_space(s.last()));
        lemma_trim_end_at(rest, k);
        assert(rest.take(k) =~= s.take(k));
    } else {
        assert(s.take(k) =~= s);
    }
}

/// Text that neither begins nor ends with white space is left alone by `trim`.
pub proof fn lemma_trim_fixed(s: Seq<char>)
    requires
        s.len() > 0 ==> !is_space(s[0]) && !is_space(s.last()),
    ensures
        trim(s) == s,
{
}

/// What `trim` leaves neither begins nor ends with white space.
pub proof fn lemma_trim_ends(s: Seq<char>)
    ensures
        trim(s).len() > 0 ==> !is_space(trim(s)[0]) && !is_space(trim(s).last()),
{
    lemma_trim_start(s);
    lemma_trim_end(trim_start(s));
}

pub fn space(c: char) -> (r: bool)
    ensures
        r == is_space(c),
{
    let u: u32 = c as u32;
    (0x09 <= u && u <= 0x0d) || u == 0x20 || u == 0x85 || u == 0xa0 || u == 0x1680 || (0x2000 <= u
        && u <= 0x200a) || u == 0x2028 || u == 0x2029 || u == 0x202f || u == 0x205f || u == 0x3000
}

/// The characters of `text`.
pub fn to_chars(text: &str) -> (r: Vec<char>)
    ensures
        r@ == text@,
{
    let mut out: Vec<char> = Vec::new();
    for c in it: text.chars()
        invariant
            out@ == it.seq().take(it.index() as int),
            it.seq() == text@,
    {
        out.push(c);
        assert(it.seq().take(it.index() + 1) =~= it.seq().take(it.index() as int).push(c));
    }
    assert(text@.take(text@.len() as int) =~= text@);
    out
}

/// The string made of these characters.
pub fn to_text(chars: &[char]) -> (r: String)
    ensures
        r@ == chars@,
{
    let mut out = String::new();
    let mut i: usize = 0;
    while i < chars.len()
        invariant
            i <= chars@.len(),
            out@ == chars@.take(i as int),
        decreases chars@.len() - i,
    {
        out.push(chars[i]);
        assert(chars@.take(i + 1) =~= chars@.take(i as int).push(chars@[i as int]));
        i += 1;
    }
    assert(chars@.take(chars@.len() as int) =~= chars@);
    out
}

/// `text` without the white space around it.
pub fn trimmed(chars: &[char]) -> (r: &[char])
    ensures
        r@ == trim(chars@),
{
    let mut from: usize = 0;
    while from < chars.len() && space(chars[from])
        invariant
            from <= chars@.len(),
            forall|i: int| 0 <= i < from ==> is_space(#[trigger] chars@[i]),
        decreases chars@.len() - from,
    {
        from += 1;
    }
    let mut to: usize = chars.len();
    proof {
        lemma_trim_start_at(chars@, from as int);
    }
    while to > from && space(chars[to - 1])
        invariant
            from <= to <= chars@.len(),
            forall|i: int| to <= i < chars@.len() ==> is_space(#[trigger] chars@[i]),
        decreases to,
    {
        to -= 1;
    }
    let r = slice_subrange(chars, from, to);
    proof {
        let t = chars@.skip(from as int);
        let k = to - from;
        assert forall|i: int| k <= i < t.len() implies is_space(#[trigger] t[i]) by {
            assert(t[i] == chars@[i + from]);
        }
        lemma_trim_end_at(t, k);
        assert(t.take(k) =~= r@);
    }
    r
}

/// `chars` with every ASCII small letter replaced by its capital.
pub fn uppered(chars: &[char]) -> (r: Vec<char>)
    ensures
        r@ == upper(chars@),
{
    let mut out: Vec<char> = Vec::new();
    let mut i: usize = 0;
    while i < chars.len()
        invariant
            i <= chars@.len(),
            out@ =~= upper(chars@).take(i as int),
        decreases chars@.len() - i,
    {
        let c = chars[i];
        let u: u32 = c as u32;
        let d = if 0x61 <= u && u <= 0x7a {
            ((u - 32) as u8) as char
        } else {
            c
        };
        out.push(d);
        i += 1;
    }
    assert(upper(chars@).take(chars@.len() as int) =~= upper(chars@));
    out
}

/// The characters of each of these texts.
pub open spec fn views(items: Seq<Vec<char>>) -> Seq<Seq<char>> {
    items.map_values(|item: Vec<char>| item@)
}

/// The characters of each of these strings.
pub open spec fn texts(items: Seq<String>) -> Seq<Seq<char>> {
    items.map_values(|item: String| item@)
}

/// The words of `chars`: its maximal runs without white space.
pub fn split_words(chars: &[char]) -> (r: Vec<Vec<char>>)
    ensures
        views(r@) == words(chars@),
{
    let mut out: Vec<Vec<char>> = Vec::new();
    let mut i: usize = 0;
    proof {
        assert(chars@.skip(0) =~= chars@);
        assert(views(out@) + words(chars@) =~= words(chars@));
    }
    loop
        invariant
            i <= chars@.len(),
            words(chars@) == views(out@) + words(chars@.skip(i as int)),
        ensures
            words(chars@) == views(out@),
        decreases chars@.len() - i,
    {
        let ghost rest = chars@.skip(i as int);
        let mut from: usize = i;
        while from < chars.len() && space(chars[from])
            invariant
                i <= from <= chars@.len(),
                forall|k: int| i <= k < from ==> is_space(#[trigger] chars@[k]),
            decreases chars@.len() - from,
        {
            from += 1;
        }
        proof {
            assert forall|k: int| 0 <= k < from - i implies is_space(#[trigger] rest[k]) by {
                assert(rest[k] == chars@[k + i]);
            }
            lemma_trim_start_at(rest, from - i);
            assert(rest.skip(from - i) =~= chars@.skip(from as int));
        }
        if from == chars.len() {
            proof {
                assert(words(rest) =~= seq![]);
                assert(views(out@) + words(rest) =~= views(out@));
            }
            break;
        }
        let mut to: usize = from;
        while to < chars.len() && !space(chars[to])
            invariant
                from <= to <= chars@.len(),
                forall|k: int| from <= k < to ==> !is_space(#[trigger] chars@[k]),
            decreases chars@.len() - to,
        {
            to += 1;
        }
        let word: Vec<char> = slice_to_vec(slice_subrange(chars, from, to));
        proof {
            let t = chars@.skip(from as int);
            lemma_word_len(t);
            assert(word_len(t) == to - from) by {
                if word_len(t) < to - from {
                    assert(t[word_len(t) as int] == chars@[word_len(t) + from]);
                } else if word_len(t) > to - from {
                    assert(t[to - from] == chars@[to as int]);
                }
            }
            assert(t.take(to - from) =~= word@);
            assert(t.skip(to - from) =~= chars@.skip(to as int));
            assert(views(out@.push(word)) =~= views(out@).push(word@));
            assert(views(out@) + (seq![word@] + words(chars@.skip(to as int))) =~= views(
                out@.push(word),
            ) + words(chars@.skip(to as int)));
        }
        out.push(word);
        i = to;
    }
    out
}

/// The position of the first `c` in `s`, or the length of `s` where there is none.
pub open spec fn position(s: Seq<char>, c: char) -> nat
    decreases s.len(),
{
    if s.len() == 0 || s[0] == c {
        0
    } else {
        1 + position(s.drop_first(), c)
    }
}

pub proof fn lemma_position(s: Seq<char>, c: char)
    ensures
        position(s, c) <= s.len(),
        forall|i: int| 0 <= i < position(s, c) ==> #[trigger] s[i] != c,
        position(s, c) < s.len() ==> s[position(s, c) as int] == c,
    decreases s.len(),
{
    if s.len() > 0 && s[0] != c {
        let rest = s.drop_first();
        lemma_position(rest, c);
        assert forall|i: int| 0 <= i < position(s, c) implies #[trigger] s[i] != c by {
            if i > 0 {
                assert(s[i] == rest[i - 1]);
            }
        }
    }
}

/// Where the characters before `k` differ from `c` and the one at `k`, if any, is `c`, the
/// first `c` stands at `k`.
pub proof fn lemma_position_at(s: Seq<char>, c: char, k: int)
    requires
        0 <= k <= s.len(),
        forall|i: int| 0 <= i < k ==> #[trigger] s[i] != c,
        k < s.len() ==> s[k] == c,
    ensures
        position(s, c) == k,
{
    lemma_position(s, c);
    let p = position(s, c) as int;
    if p < k {
        assert(s[p] != c);
    } else if p > k {
        assert(s[k] != c);
    }
}

/// The text before and after the first `c`, if there is one.
pub open spec fn split_once(s: Seq<char>, c: char) -> Option<(Seq<char>, Seq<char>)> {
    let p = position(s, c) as int;
    if p < s.len() {
        Some((s.take(p), s.skip(p + 1)))
    } else {
        None
    }
}

/// The position of the first `c`, or the length where there is none.
pub fn find(chars: &[char], c: char) -> (r: usize)
    ensures
        r == position(chars@, c),
        r <= chars@.len(),
{
    let mut i: usize = 0;
    while i < chars.len() && chars[i] != c
        invariant
            i <= chars@.len(),
            forall|k: int| 0 <= k < i ==> #[trigger] chars@[k] != c,
        decreases chars@.len() - i,
    {
        i += 1;
    }
    proof {
        lemma_position_at(chars@, c, i as int);
    }
    i
}

/// Splits at the first `c`.
pub fn cut<'a>(chars: &'a [char], c: char) -> (r: Option<(&'a [char], &'a [char])>)
    ensures
        r is Some <==> split_once(chars@, c) is Some,
        r matches Some((a, b)) ==> split_once(chars@, c) == Some((a@, b@)),
{
    let p = find(chars, c);
    if p < chars.len() {
        let a = slice_subrange(chars, 0, p);
        let b = slice_subrange(chars, p + 1, chars.len());
        assert(a@ =~= chars@.take(p as int));
        assert(b@ =~= chars@.skip(p + 1));
        Some((a, b))
    } else {
        None
    }
}

pub fn has_char(chars: &[char], c: char) -> (r: bool)
    ensures
        r == chars@.contains(c),
{
    let p = find(chars, c);
    proof {
        lemma_position(chars@, c);
        if p < chars@.len() {
            assert(chars@[p as int] == c);
        } else if chars@.contains(c) {
            let i = choose|i: int| 0 <= i < chars@.len() && chars@[i] == c;
            assert(chars@[i] != c);
        }
    }
    p < chars.len()
}

/// The lines of `s`: pieces ended by a line feed, or by a carriage return and a line feed;
/// the last piece may lack its end, and is no line where it is empty.
pub open spec fn lines(s: Seq<char>) -> Seq<Seq<char>>
    decreases s.len(),
    via lines_decreases
{
    let p = position(s, '\n') as int;
    if s.len() == 0 {
        seq![]
    } else if p == s.len() {
        seq![s]
    } else {
        seq![without_return(s.take(p))] + lines(s.skip(p + 1))
    }
}

#[via_fn]
proof fn lines_decreases(s: Seq<char>) {
    lemma_position(s, '\n');
}

pub open spec fn without_return(s: Seq<char>) -> Seq<char> {
    if s.len() > 0 && s.last() == '\r' {
        s.drop_last()
    } else {
        s
    }
}

/// The lines of `chars`.
pub fn split_lines(chars: &[char]) -> (r: Vec<Vec<char>>)
    ensures
        views(r@) == lines(chars@),
{
    let mut out: Vec<Vec<char>> = Vec::new();
    let mut i: usize = 0;
    proof {
        assert(chars@.skip(0) =~= chars@);
        assert(views(out@) + lines(chars@) =~= lines(chars@));
    }
    while i < chars.len()
        invariant
            i <= chars@.len(),
            lines(chars@) == views(out@) + lines(chars@.skip(i as int)),
        decreases chars@.len() - i,
    {
        let rest = slice_subrange(chars, i, chars.len());
        assert(rest@ =~= chars@.skip(i as int));
        let p = find(rest, '\n');
        let ghost before = out@;
        if p == rest.len() {
            let line: Vec<char> = slice_to_vec(rest);
            out.push(line);
            i = chars.len();
            proof {
                assert(line@ =~= rest@);
                assert(lines(chars@.skip(i as int)) =~= seq![]);
                assert(views(out@) =~= views(before).push(rest@));
                assert(views(before) + seq![rest@] =~= views(out@) + lines(chars@.skip(i as int)));
            }
        } else {
            let to = if p > 0 && rest[p - 1] == '\r' {
                p - 1
            } else {
                p
            };
            let line: Vec<char> = slice_to_vec(slice_subrange(rest, 0, to));
            proof {
                assert(line@ =~= without_return(rest@.take(p as int)));
                assert(rest@.skip(p + 1) =~= chars@.skip(i + p + 1));
            }
            out.push(line);
            i = i + p + 1;
            proof {
                assert(views(out@) =~= views(before).push(line@));
                assert(views(before) + (seq![line@] + lines(chars@.skip(i as int))) =~= views(out@)
                    + lines(chars@.skip(i as int)));
            }
        }
    }
    proof {
        assert(chars@.skip(i as int) =~= seq![]);
        assert(views(out@) + lines(chars@.skip(i as int)) =~= views(out@));
    }
    out
}

/// Whether the two texts are the same.
pub fn same(chars: &[char], other: &[char]) -> (r: bool)
    ensures
        r == (chars@ == other@),
{
    if chars.len() != other.len() {
        return false;
    }
    let mut i: usize = 0;
    while i < chars.len()
        invariant
            i <= chars@.len(),
            chars@.len() == other@.len(),
            forall|k: int| 0 <= k < i ==> #[trigger] chars@[k] == other@[k],
        decreases chars@.len() - i,
    {
        if chars[i] != other[i] {
            return false;
        }
        i += 1;
    }
    assert(chars@ =~= other@);
    true
}

/// Whether `chars` spells `text`.
pub fn spells(chars: &[char], text: &str) -> (r: bool)
    ensures
        r == (chars@ == text@),
{
    let other = to_chars(text);
    same(chars, other.as_slice())
}

pub fn same_text(a: &str, b: &str) -> (r: bool)
    ensures
        r == (a@ == b@),
{
    let x = to_chars(a);
    let y = to_chars(b);
    same(x.as_slice(), y.as_slice())
}

pub open spec fn starts_with(s: Seq<char>, p: Seq<char>) -> bool {
    p.len() <= s.len() && s.take(p.len() as int) == p
}

pub open spec fn ends_with(s: Seq<char>, p: Seq<char>) -> bool {
    p.len() <= s.len() && s.skip(s.len() - p.len()) == p
}

/// Whether `p` stands somewhere in `s`.
pub open spec fn contains_text(s: Seq<char>, p: Seq<char>) -> bool {
    exists|i: int| 0 <= i <= s.len() - p.len() && #[trigger] s.subrange(i, i + p.len()) == p
}

/// What follows `p` where `s` starts with it.
pub open spec fn strip_prefix(s: Seq<char>, p: Seq<char>) -> Option<Seq<char>> {
    if starts_with(s, p) {
        Some(s.skip(p.len() as int))
    } else {
        None
    }
}

/// `s` without the copies of `p` that it ends with.
pub open spec fn strip_ends(s: Seq<char>, p: Seq<char>) -> Seq<char>
    decreases s.len(),
{
    if p.len() > 0 && ends_with(s, p) {
        strip_ends(s.take(s.len() - p.len()), p)
    } else {
        s
    }
}

pub fn begins(chars: &[char], text: &str) -> (r: bool)
    ensures
        r == starts_with(chars@, text@),
{
    let p = to_chars(text);
    if p.len() > chars.len() {
        return false;
    }
    let head = slice_subrange(chars, 0, p.len());
    assert(head@ =~= chars@.take(p@.len() as int));
    same(head, p.as_slice())
}

pub fn ends(chars: &[char], text: &str) -> (r: bool)
    ensures
        r == ends_with(chars@, text@),
{
    let p = to_chars(text);
    if p.len() > chars.len() {
        return false;
    }
    let tail = slice_subrange(chars, chars.len() - p.len(), chars.len());
    assert(tail@ =~= chars@.skip(chars@.len() - p@.len()));
    same(tail, p.as_slice())
}

pub fn has_text(chars: &[char], text: &str) -> (r: bool)
    ensures
        r == contains_text(chars@, text@),
{
    let p = to_chars(text);
    if p.len() > chars.len() {
        return false;
    }
    let mut i: usize = 0;
    while i <= chars.len() - p.len()
        invariant
            p@ == text@,
            p@.len() <= chars@.len(),
            i <= chars@.len() - p@.len() + 1,
            forall|k: int| 0 <= k < i ==> #[trigger] chars@.subrange(k, k + p@.len()) != p@,
        decreases chars@.len() + 1 - i,
    {
        let window = slice_subrange(chars, i, i + p.len());
        if same(window, p.as_slice()) {
            assert(chars@.subrange(i as int, i + p@.len()) == p@);
            return true;
        }
        if i == chars.len() - p.len() {
            return false;
        }
        i += 1;
    }
    false
}

/// What follows `text` where `chars` starts with it.
pub fn after<'a>(chars: &'a [char], text: &str) -> (r: Option<&'a [char]>)
    ensures
        r is Some <==> strip_prefix(chars@, text@) is Some,
        r matches Some(rest) ==> strip_prefix(chars@, text@) == Some(rest@),
{
    if begins(chars, text) {
        let p = to_chars(text);
        let rest = slice_subrange(chars, p.len(), chars.len());
        assert(rest@ =~= chars@.skip(text@.len() as int));
        Some(rest)
    } else {
        None
    }
}

/// `chars` without the copies of `text` that it ends with.
pub fn without_ends<'a>(chars: &'a [char], text: &str) -> (r: &'a [char])
    ensures
        r@ == strip_ends(chars@, text@),
{
    let p = to_chars(text);
    let mut to: usize = chars.len();
    assert(chars@.take(chars@.len() as int) =~= chars@);
    let mut head = slice_subrange(chars, 0, to);
    assert(head@ =~= chars@);
    while p.len() > 0 && ends(head, text)
        invariant
            p@ == text@,
            to <= chars@.len(),
            head@ == chars@.take(to as int),
            strip_ends(chars@, text@) == strip_ends(head@, text@),
        decreases to,
    {
        to = to - p.len();
        let shorter = slice_subrange(chars, 0, to);
        assert(shorter@ =~= head@.take(head@.len() - text@.len()));
        assert(shorter@ =~= chars@.take(to as int));
        head = shorter;
    }
    head
}

/// The number of bytes that UTF-8 takes for `c`.
pub open spec fn char_bytes(c: char) -> nat {
    let u = c as u32;
    if u < 0x80 {
        1
    } else if u < 0x800 {
        2
    } else if u < 0x10000 {
        3
    } else {
        4
    }
}

/// The number of bytes that UTF-8 takes for `s`.
pub open spec fn byte_len(s: Seq<char>) -> nat
    decreases s.len(),
{
    if s.len() == 0 {
        0
    } else {
        char_bytes(s[0]) + byte_len(s.drop_first())
    }
}

/// The first characters of `s` that together take `n` bytes, if there are such.
pub open spec fn leading(s: Seq<char>, n: nat) -> Option<Seq<char>>
    decreases s.len(),
{
    if n == 0 {
        Some(seq![])
    } else if s.len() == 0 || char_bytes(s[0]) > n {
        None
    } else {
        match leading(s.drop_first(), (n - char_bytes(s[0])) as nat) {
            Some(rest) => Some(seq![s[0]] + rest),
            None => None,
        }
    }
}

pub fn width(c: char) -> (r: usize)
    ensures
        r == char_bytes(c),
{
    let u: u32 = c as u32;
    if u < 0x80 {
        1
    } else if u < 0x800 {
        2
    } else if u < 0x10000 {
        3
    } else {
        4
    }
}

/// The length in bytes.
pub fn byte_count(chars: &[char]) -> (r: u128)
    ensures
        r == byte_len(chars@),
        r <= 4 * usize::MAX,
{
    let mut i: usize = 0;
    let mut n: u128 = 0;
    assert(chars@.skip(0) =~= chars@);
    while i < chars.len()
        invariant
            i <= chars@.len(),
            n <= 4 * i,
            byte_len(chars@) == n + byte_len(chars@.skip(i as int)),
        decreases chars@.len() - i,
    {
        assert(chars@.skip(i as int).drop_first() =~= chars@.skip(i + 1));
        let w: usize = width(chars[i]);
        n += w as u128;
        i += 1;
    }
    assert(chars@.skip(i as int) =~= seq![]);
    n
}

/// The characters that make up the first `n` bytes, where these end between two characters.
pub fn head<'a>(chars: &'a [char], n: u128) -> (r: Option<&'a [char]>)
    ensures
        r is Some <==> leading(chars@, n as nat) is Some,
        r matches Some(part) ==> leading(chars@, n as nat) == Some(part@),
        r matches Some(part) ==> part@.len() <= chars@.len() && part@ == chars@.take(
            part@.len() as int,
        ),
{
    let mut i: usize = 0;
    let mut left: u128 = n;
    assert(chars@.skip(0) =~= chars@);
    proof {
        if let Some(rest) = leading(chars@, n as nat) {
            assert(chars@.take(0) + rest =~= rest);
        }
    }
    while left > 0
        invariant
            i <= chars@.len(),
            left <= n,
            match leading(chars@.skip(i as int), left as nat) {
                Some(rest) => leading(chars@, n as nat) == Some(chars@.take(i as int) + rest),
                None => leading(chars@, n as nat) is None,
            },
        decreases left,
    {
        let ghost rest = chars@.skip(i as int);
        if i == chars.len() {
            return None;
        }
        let w: u128 = width(chars[i]) as u128;
        if w > left {
            return None;
        }
        assert(rest.drop_first() =~= chars@.skip(i + 1));
        proof {
            if let Some(tail) = leading(rest.drop_first(), (left - w) as nat) {
                assert(chars@.take(i as int) + (seq![rest[0]] + tail) =~= chars@.take(i + 1) + tail);
            }
        }
        left -= w;
        i += 1;
    }
    let part = slice_subrange(chars, 0, i);
    assert(part@ =~= chars@.take(i as int));
    assert(chars@.take(i as int) + seq![] =~= chars@.take(i as int));
    Some(part)
}

/// The text with `with` in place of each `c`.
pub open spec fn replaced(s: Seq<char>, c: char, with: Seq<char>) -> Seq<char>
    decreases s.len(),
{
    if s.len() == 0 {
        seq![]
    } else if s.last() == c {
        replaced(s.drop_last(), c, with) + with
    } else {
        replaced(s.drop_last(), c, with).push(s.last())
    }
}

/// The text with `with` in place of each `c`.
pub fn replace_char(text: &str, c: char, with: &str) -> (r: String)
    ensures
        r@ == replaced(text@, c, with@),
{
    let chars = to_chars(text);
    let mut out: String = String::new();
    let mut i: usize = 0;
    while i < chars.len()
        invariant
            i <= chars@.len(),
            out@ == replaced(chars@.take(i as int), c, with@),
        decreases chars@.len() - i,
    {
        assert(chars@.take(i + 1).drop_last() =~= chars@.take(i as int));
        if chars[i] == c {
            out.append(with);
        } else {
            out.push(chars[i]);
        }
        i += 1;
    }
    assert(chars@.take(i as int) =~= chars@);
    out
}

/// No character of the text is a slash.
pub open spec fn slashless(s: Seq<char>) -> bool {
    forall|i: int| 0 <= i < s.len() ==> #[trigger] s[i] != '/'
}

} // verus!
