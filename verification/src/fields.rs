//! Tables of separated values: their columns, and the numbers in their fields.
use vstd::prelude::*;
use crate::domain::Failure;
use crate::evaluate::{number_in, reads_number};
use crate::reading::{Arithmetic, Reading};
use crate::text::{begins, same_text, spells, starts_with, texts, to_chars, trim, trimmed};

verus! {

/// The column names that `csv::Reader::headers` reads, for a delimiter, with rows of equal or of
/// any length.
pub uninterp spec fn table_headers(content: Seq<u8>, delimiter: u8, flexible: bool) -> Option<
    Seq<Seq<char>>,
>;

/// The rows that `csv::Reader::records` reads, in order, none for one that it cannot read.
pub uninterp spec fn table_rows(content: Seq<u8>, delimiter: u8, flexible: bool) -> Seq<
    Option<Seq<Seq<char>>>,
>;

/// The fields of a row, where it can be read.
pub open spec fn row_texts(row: Option<Vec<String>>) -> Option<Seq<Seq<char>>> {
    match row {
        Some(fields) => Some(texts(fields@)),
        None => None,
    }
}

/// Calls `csv::Reader::headers` on the bytes of a table.
#[verifier::external_body]
pub(crate) fn read_headers(content: &[u8], delimiter: u8, flexible: bool) -> (r: Option<Vec<String>>)
    ensures
        row_texts(r) == table_headers(content@, delimiter, flexible),
{
    let mut builder = csv::ReaderBuilder::new();
    let mut reader = builder.delimiter(delimiter).flexible(flexible).from_reader(content);
    Some(reader.headers().ok()?.iter().map(String::from).collect())
}

/// Calls `csv::Reader::records` on the bytes of a table.
#[verifier::external_body]
pub(crate) fn read_rows(content: &[u8], delimiter: u8, flexible: bool) -> (r: Vec<Option<Vec<String>>>)
    ensures
        r@.map_values(|row: Option<Vec<String>>| row_texts(row)) == table_rows(
            content@,
            delimiter,
            flexible,
        ),
{
    let mut builder = csv::ReaderBuilder::new();
    let mut reader = builder.delimiter(delimiter).flexible(flexible).from_reader(content);
    reader.records().map(|row| Some(row.ok()?.iter().map(String::from).collect())).collect()
}

/// The first column of this name.
pub open spec fn column_named(headers: Seq<Seq<char>>, name: Seq<char>) -> Option<nat>
    decreases headers.len(),
{
    if headers.len() == 0 {
        None
    } else if headers[0] == name {
        Some(0nat)
    } else {
        match column_named(headers.drop_first(), name) {
            Some(k) => Some(k + 1),
            None => None,
        }
    }
}

/// The first column whose name starts so.
pub open spec fn column_starting(headers: Seq<Seq<char>>, start: Seq<char>) -> Option<nat>
    decreases headers.len(),
{
    if headers.len() == 0 {
        None
    } else if starts_with(headers[0], start) {
        Some(0nat)
    } else {
        match column_starting(headers.drop_first(), start) {
            Some(k) => Some(k + 1),
            None => None,
        }
    }
}

pub open spec fn position_of(column: Option<usize>) -> Option<nat> {
    match column {
        Some(k) => Some(k as nat),
        None => None,
    }
}

/// The first column of this name, if there is one.
pub fn find_optional_header(headers: &Vec<String>, expected: &str) -> (r: Option<usize>)
    ensures
        position_of(r) == column_named(texts(headers@), expected@),
        r matches Some(k) ==> k < headers@.len(),
{
    let ghost all = texts(headers@);
    let mut i: usize = 0;
    assert(all.skip(0) =~= all);
    while i < headers.len()
        invariant
            i <= headers@.len(),
            all == texts(headers@),
            column_named(all, expected@) == (match column_named(all.skip(i as int), expected@) {
                Some(k) => Some(k + i as nat),
                None => None,
            }),
        decreases headers@.len() - i,
    {
        assert(all.skip(i as int).drop_first() =~= all.skip(i + 1));
        assert(all.skip(i as int)[0] == headers@[i as int]@);
        if same_text(&headers[i], expected) {
            return Some(i);
        }
        i += 1;
    }
    None
}

/// The first column whose name starts so, if there is one.
pub fn find_header_starting(headers: &Vec<String>, start: &str) -> (r: Option<usize>)
    ensures
        position_of(r) == column_starting(texts(headers@), start@),
        r matches Some(k) ==> k < headers@.len(),
{
    let ghost all = texts(headers@);
    let mut i: usize = 0;
    assert(all.skip(0) =~= all);
    while i < headers.len()
        invariant
            i <= headers@.len(),
            all == texts(headers@),
            column_starting(all, start@) == (match column_starting(all.skip(i as int), start@) {
                Some(k) => Some(k + i as nat),
                None => None,
            }),
        decreases headers@.len() - i,
    {
        assert(all.skip(i as int).drop_first() =~= all.skip(i + 1));
        assert(all.skip(i as int)[0] == headers@[i as int]@);
        if begins(&to_chars(&headers[i]), start) {
            return Some(i);
        }
        i += 1;
    }
    None
}

/// What is said of a column that is missing.
pub open spec fn missing_column(name: Seq<char>) -> Seq<char> {
    "IEM CSV missing "@ + name + " column"@
}

/// The first column of this name; where there is none, a failure that says so.
pub fn find_header(headers: &Vec<String>, expected: &str) -> (r: Result<usize, Failure>)
    ensures
        match r {
            Ok(k) => column_named(texts(headers@), expected@) == Some(k as nat),
            Err(failure) => column_named(texts(headers@), expected@) is None && failure.message@
                == missing_column(expected@),
        },
{
    match find_optional_header(headers, expected) {
        Some(k) => Ok(k),
        None => {
            let mut message: String = "IEM CSV missing ".to_string();
            message.append(expected);
            message.append(" column");
            Err(Failure { message })
        },
    }
}

/// A field of a row, where the row is that long.
pub open spec fn field_at(row: Seq<Seq<char>>, column: nat) -> Option<Seq<char>> {
    if column < row.len() {
        Some(row[column as int])
    } else {
        None
    }
}

pub open spec fn opt_str(text: Option<&str>) -> Option<Seq<char>> {
    match text {
        Some(t) => Some(t@),
        None => None,
    }
}

pub fn field<'a>(row: &'a Vec<String>, column: usize) -> (r: Option<&'a str>)
    ensures
        opt_str(r) == field_at(texts(row@), column as nat),
{
    if column < row.len() {
        Some(row[column].as_str())
    } else {
        None
    }
}

/// A field of a row, where there is such a column and the row is that long.
pub open spec fn optional_field_at(row: Seq<Seq<char>>, column: Option<usize>) -> Option<Seq<char>> {
    match column {
        Some(k) => field_at(row, k as nat),
        None => None,
    }
}

pub fn optional_field<'a>(row: &'a Vec<String>, column: Option<usize>) -> (r: Option<&'a str>)
    ensures
        opt_str(r) == optional_field_at(texts(row@), column),
{
    match column {
        Some(k) => field(row, k),
        None => None,
    }
}

/// A field of a row, empty where the row is not that long.
pub open spec fn field_or_empty(row: Seq<Seq<char>>, column: usize) -> Seq<char> {
    match field_at(row, column as nat) {
        Some(text) => text,
        None => ""@,
    }
}

pub(crate) fn field_text<'a>(row: &'a Vec<String>, column: usize) -> (r: &'a str)
    ensures
        r@ == field_or_empty(texts(row@), column),
{
    match field(row, column) {
        Some(text) => text,
        None => "",
    }
}

/// The text stands for a missing number.
pub open spec fn is_blank_number(text: Seq<char>) -> bool {
    text.len() == 0 || text == "M"@ || text == "VRB"@
}

/// The field of this text holds this number; a text that is no number makes it fail.
pub open spec fn number_text_means<A: Arithmetic>(
    a: &A,
    text: Seq<char>,
    out: Result<Option<Reading>, Seq<char>>,
) -> bool {
    match out {
        Ok(Some(value)) => reads_number(a, text, Some(value)),
        Ok(None) => false,
        Err(message) => reads_number(a, text, None) && message == "failed to parse numeric field "@
            + text,
    }
}

/// The field holds this number; it holds none where it is missing, empty, `M` or `VRB`.
pub open spec fn number_field<A: Arithmetic>(
    a: &A,
    raw: Option<Seq<char>>,
    out: Result<Option<Reading>, Seq<char>>,
) -> bool {
    match raw {
        None => out == Ok::<Option<Reading>, Seq<char>>(None),
        Some(text) => if is_blank_number(trim(text)) {
            out == Ok::<Option<Reading>, Seq<char>>(None)
        } else {
            number_text_means(a, trim(text), out)
        },
    }
}

pub open spec fn number_outcome(r: Result<Option<Reading>, Failure>) -> Result<
    Option<Reading>,
    Seq<char>,
> {
    match r {
        Ok(value) => Ok(value),
        Err(failure) => Err(failure.message@),
    }
}

/// The number that a field holds.
pub fn parse_optional_f64_field<A: Arithmetic>(a: &A, raw: Option<&str>) -> (r: Result<
    Option<Reading>,
    Failure,
>)
    ensures
        number_field(a, opt_str(raw), number_outcome(r)),
{
    match raw {
        None => Ok(None),
        Some(text) => {
            let chars = to_chars(text);
            let body = trimmed(&chars);
            if body.len() == 0 || spells(body, "M") || spells(body, "VRB") {
                Ok(None)
            } else {
                match number_in(a, body) {
                    Some(value) => Ok(Some(value)),
                    None => Err(Failure::about("failed to parse numeric field ", body)),
                }
            }
        },
    }
}

/// The fields, with their texts as sequences of characters.
pub open spec fn raw_texts(raws: Seq<Option<&str>>) -> Seq<Option<Seq<char>>> {
    raws.map_values(|raw: Option<&str>| opt_str(raw))
}

pub open spec fn field_is_read<A: Arithmetic>(a: &A, raw: Option<Seq<char>>) -> bool {
    exists|value: Option<Reading>| #[trigger] number_field(a, raw, Ok(value))
}

/// The fields hold these numbers.
pub open spec fn fields_hold<A: Arithmetic>(
    a: &A,
    raws: Seq<Option<Seq<char>>>,
    values: Seq<Option<Reading>>,
) -> bool {
    values.len() == raws.len() && forall|i: int|
        0 <= i < raws.len() ==> number_field(a, raws[i], Ok(#[trigger] values[i]))
}

/// The first of the fields that fails fails with this message.
pub open spec fn fields_fail<A: Arithmetic>(
    a: &A,
    raws: Seq<Option<Seq<char>>>,
    message: Seq<char>,
) -> bool {
    exists|i: int|
        {
            &&& 0 <= i < raws.len()
            &&& number_field(a, #[trigger] raws[i], Err(message))
            &&& forall|j: int| 0 <= j < i ==> field_is_read(a, #[trigger] raws[j])
        }
}

/// The numbers that the fields hold.
pub fn read_fields<A: Arithmetic>(a: &A, raws: &Vec<Option<&str>>) -> (r: Result<
    Vec<Option<Reading>>,
    Failure,
>)
    ensures
        match r {
            Ok(values) => fields_hold(a, raw_texts(raws@), values@),
            Err(failure) => fields_fail(a, raw_texts(raws@), failure.message@),
        },
{
    let ghost all = raw_texts(raws@);
    let mut values: Vec<Option<Reading>> = Vec::new();
    let mut i: usize = 0;
    while i < raws.len()
        invariant
            i <= raws@.len(),
            all == raw_texts(raws@),
            values@.len() == i,
            forall|k: int| 0 <= k < i ==> number_field(a, all[k], Ok(#[trigger] values@[k])),
        decreases raws@.len() - i,
    {
        assert(all[i as int] == opt_str(raws@[i as int]));
        match parse_optional_f64_field(a, raws[i]) {
            Ok(value) => {
                values.push(value);
            },
            Err(failure) => {
                proof {
                    assert forall|j: int| 0 <= j < i implies field_is_read(a, #[trigger] all[j]) by {
                        assert(number_field(a, all[j], Ok(values@[j])));
                    }
                    assert(number_field(a, all[i as int], Err(failure.message@)));
                }
                return Err(failure);
            },
        }
        i += 1;
    }
    Ok(values)
}

} // verus!
