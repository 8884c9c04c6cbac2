//! Splitting a line into fields. The splitting itself is done by `bstr`.

use vstd::prelude::*;
use crate::errors::NumberError;

verus! {

/// The characters that part the fields of a skeleton line: ASCII whitespace and the colon.
pub open spec fn is_separator(c: char) -> bool {
    c == ' ' || c == '\t' || c == '\n' || c == '\x0C' || c == '\r' || c == ':'
}

/// Whether `c` parts two fields of a skeleton line.
pub fn is_field_separator(c: char) -> (r: bool)
    ensures
        r == is_separator(c),
{
    c == ' ' || c == '\t' || c == '\n' || c == '\x0C' || c == '\r' || c == ':'
}

/// What `bstr` leaves of a line when it trims the whitespace off both ends.
pub uninterp spec fn trimmed(line: Seq<u8>) -> Seq<u8>;

/// The fields into which `bstr` splits a line at runs of separators (`is_separator`).
pub uninterp spec fn separated_fields(line: Seq<u8>) -> Seq<Seq<u8>>;

/// The fields into which `bstr` splits a line at runs of whitespace.
pub uninterp spec fn whitespace_fields(line: Seq<u8>) -> Seq<Seq<u8>>;

/// What `lexical` reads a field as, taken as an unsigned decimal number.
pub uninterp spec fn parsed_count(field: Seq<u8>) -> Result<usize, NumberError>;

/// `bstr::ByteSlice::trim`: a copy of the line without the whitespace, in
/// Unicode's sense, at its two ends. Nothing is claimed of the result but
/// that it depends on the line alone.
#[verifier::external_body]
pub(crate) fn trim(line: &[u8]) -> (rest: Vec<u8>)
    ensures
        rest@ == trimmed(line@),
{
    bstr::ByteSlice::trim(line).to_vec()
}

/// `bstr::ByteSlice::fields_with`, with `is_field_separator` as the predicate:
/// copies of the fields of the line, in order. Nothing is claimed of the
/// result but that it depends on the line alone.
#[verifier::external_body]
pub(crate) fn split_at_separators(line: &[u8]) -> (fields: Vec<Vec<u8>>)
    ensures
        fields.deep_view() == separated_fields(line@),
{
    bstr::ByteSlice::fields_with(line, |c: char| is_field_separator(c)).map(|f| f.to_vec()).collect()
}

/// `bstr::ByteSlice::fields`: copies of the fields of the line, which
/// whitespace in Unicode's sense parts, in order. Nothing is claimed of the
/// result but that it depends on the line alone.
#[verifier::external_body]
pub(crate) fn split_at_whitespace(line: &[u8]) -> (fields: Vec<Vec<u8>>)
    ensures
        fields.deep_view() == whitespace_fields(line@),
{
    bstr::ByteSlice::fields(line).map(|f| f.to_vec()).collect()
}

/// `lexical::try_parse` at type `usize`: the number that the field spells in
/// decimal, or the parser's reason for refusing it. Nothing is claimed of the
/// result but that it depends on the field alone.
#[verifier::external_body]
pub(crate) fn parse_count(field: &[u8]) -> (r: Result<usize, NumberError>)
    ensures
        r == parsed_count(field@),
{
    match lexical::try_parse::<usize, _>(field) {
        Ok(n) => Ok(n),
        Err(e) => Err(match *e.kind() {
            lexical::ErrorKind::Overflow => NumberError::Overflow,
            lexical::ErrorKind::InvalidDigit(at) => NumberError::InvalidDigit(at),
            lexical::ErrorKind::Empty => NumberError::Empty,
            _ => NumberError::Other,
        }),
    }
}

/// The fields that a vector of byte strings holds.
pub open spec fn field_views(fields: Seq<Vec<u8>>) -> Seq<Seq<u8>> {
    fields.map_values(|f: Vec<u8>| f@)
}

/// The deep view of a vector of byte strings is the sequence of their views.
pub proof fn lemma_field_views(fields: Vec<Vec<u8>>)
    ensures
        fields.deep_view() == field_views(fields@),
{
    assert forall|i: int| 0 <= i < fields@.len() implies fields.deep_view()[i] == field_views(
        fields@,
    )[i] by {
        assert(fields.deep_view()[i] =~= fields@[i]@);
    }
    assert(fields.deep_view() =~= field_views(fields@));
}

/// The fields of a skeleton line: the line is trimmed, then split at separators.
pub open spec fn keyword_fields(line: Seq<u8>) -> Seq<Seq<u8>> {
    separated_fields(trimmed(line))
}

/// Splits a line as the skeleton and the `Frames:` line are split.
pub fn split_keyword_fields(line: &[u8]) -> (fields: Vec<Vec<u8>>)
    ensures
        field_views(fields@) == keyword_fields(line@),
{
    let rest = trim(line);
    let fields = split_at_separators(rest.as_slice());
    proof {
        lemma_field_views(fields);
    }
    fields
}

/// Splits a line as the `Frame Time:` line and the lines of motion values are split.
pub fn split_value_fields(line: &[u8]) -> (fields: Vec<Vec<u8>>)
    ensures
        field_views(fields@) == whitespace_fields(line@),
{
    let fields = split_at_whitespace(line);
    proof {
        lemma_field_views(fields);
    }
    fields
}

/// Whether nothing but whitespace stands on the line.
pub fn is_blank(line: &[u8]) -> (blank: bool)
    ensures
        blank == (trimmed(line@).len() == 0),
{
    let rest = trim(line);
    rest.len() == 0
}

} // verus!
