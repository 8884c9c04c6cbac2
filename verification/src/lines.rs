//! The lines of a document, numbered from 1, and the readings of their float fields.

use vstd::prelude::*;
use crate::bytes::{copy_bytes, is_keyword, keyword};
use crate::errors::NumberError;
use crate::tokens::{
    field_views, is_blank, keyword_fields, split_keyword_fields, split_value_fields, trimmed,
    whitespace_fields,
};

verus! {

/// One line of a document, as the caller hands it over.
///
/// The library reads no floats. The caller reads them, field by field, and the
/// line carries what came of it: for each field the bit pattern of the float,
/// or the reason why the field is none. `axis_fields`, `value_fields` and
/// `frame_time_field` give the fields to read.
pub struct SourceLine {
    /// The bytes of the line without its terminator; `None` if the line could not be read.
    pub content: Option<Vec<u8>>,
    /// The readings of `axis_fields`, as 32-bit floats.
    pub axes: Vec<Result<u32, NumberError>>,
    /// The readings of `value_fields`, as 32-bit floats.
    pub values: Vec<Result<u32, NumberError>>,
    /// The reading of `frame_time_field`, as a 64-bit float; `None` if there is no such field.
    pub frame_time: Option<Result<u64, NumberError>>,
}

/// What a line holds, as plain values.
pub struct LineModel {
    pub content: Option<Seq<u8>>,
    pub axes: Seq<Result<u32, NumberError>>,
    pub values: Seq<Result<u32, NumberError>>,
    pub frame_time: Option<Result<u64, NumberError>>,
}

impl View for SourceLine {
    type V = LineModel;

    open spec fn view(&self) -> LineModel {
        LineModel {
            content: match self.content {
                Some(bytes) => Some(bytes@),
                None => None,
            },
            axes: self.axes@,
            values: self.values@,
            frame_time: self.frame_time,
        }
    }
}

/// The views of a sequence of lines.
pub open spec fn line_models(lines: Seq<SourceLine>) -> Seq<LineModel> {
    lines.map_values(|l: SourceLine| l@)
}

/// The reading at a position, where a position without a reading counts as not read.
pub open spec fn reading_at<T>(readings: Seq<Result<T, NumberError>>, i: int) -> Result<
    T,
    NumberError,
> {
    if 0 <= i < readings.len() {
        readings[i]
    } else {
        Err(NumberError::NotRead)
    }
}

/// The reading at a position of a list; see `reading_at`.
pub fn read_at(readings: &Vec<Result<u32, NumberError>>, i: usize) -> (r: Result<
    u32,
    NumberError,
>)
    ensures
        r == reading_at(readings@, i as int),
{
    if i < readings.len() {
        readings[i]
    } else {
        Err(NumberError::NotRead)
    }
}

/// Among the fields of a skeleton line, those that are read as axes: up to
/// three fields behind the keyword `OFFSET`. A line of another kind has none.
pub open spec fn axis_fields_in(fields: Seq<Seq<u8>>) -> Seq<Seq<u8>> {
    if fields.len() > 0 && fields[0] == keyword("OFFSET") {
        fields.subrange(1, if fields.len() < 4 {
            fields.len() as int
        } else {
            4
        })
    } else {
        Seq::empty()
    }
}

/// The fields of a line that are read as axes; see `axis_fields_in`.
pub open spec fn axis_fields_of(content: Seq<u8>) -> Seq<Seq<u8>> {
    axis_fields_in(keyword_fields(content))
}

/// Among the fields of a line that whitespace parts, the one that holds the
/// frame time: the field behind `Frame` and `Time:`, or the one behind a colon
/// that stands alone there. A line of another kind has none, nor has one that
/// ends before that field.
pub open spec fn frame_time_field_in(fields: Seq<Seq<u8>>) -> Option<Seq<u8>> {
    if fields.len() >= 3 && fields[0] == keyword("Frame") && fields[1] == keyword("Time:") {
        if fields[2] == keyword(":") {
            if fields.len() >= 4 {
                Some(fields[3])
            } else {
                None
            }
        } else {
            Some(fields[2])
        }
    } else {
        None
    }
}

/// The field of a line that holds the frame time; see `frame_time_field_in`.
pub open spec fn frame_time_field_of(content: Seq<u8>) -> Option<Seq<u8>> {
    frame_time_field_in(whitespace_fields(content))
}

/// Picks the fields that are read as axes from the fields of a skeleton line.
pub fn select_axis_fields(all: &Vec<Vec<u8>>) -> (fields: Vec<Vec<u8>>)
    ensures
        field_views(fields@) == axis_fields_in(field_views(all@)),
{
    let mut fields: Vec<Vec<u8>> = Vec::new();
    if all.len() > 0 && is_keyword(all[0].as_slice(), "OFFSET") {
        let end: usize = if all.len() < 4 {
            all.len()
        } else {
            4
        };
        let mut i: usize = 1;
        assert(field_views(fields@) =~= field_views(all@).subrange(1, 1));
        while i < end
            invariant
                1 <= i <= end <= all.len(),
                fields@.len() == i - 1,
                field_views(fields@) == field_views(all@).subrange(1, i as int),
            decreases end - i,
        {
            let ghost before = fields@;
            fields.push(copy_bytes(all[i].as_slice()));
            assert forall|k: int| 0 <= k < fields@.len() implies field_views(fields@)[k]
                == field_views(all@).subrange(1, i + 1)[k] by {
                if k < before.len() {
                    assert(field_views(before)[k] == field_views(all@).subrange(1, i as int)[k]);
                }
            }
            assert(field_views(fields@) =~= field_views(all@).subrange(1, i + 1));
            i += 1;
        }
        fields
    } else {
        assert(field_views(fields@) =~= Seq::<Seq<u8>>::empty());
        fields
    }
}

/// Picks the field that holds the frame time from the fields of a line.
pub fn select_frame_time_field(fields: &Vec<Vec<u8>>) -> (field: Option<Vec<u8>>)
    ensures
        match frame_time_field_in(field_views(fields@)) {
            Some(bytes) => field is Some && field->Some_0@ == bytes,
            None => field is None,
        },
{
    if fields.len() >= 3 && is_keyword(fields[0].as_slice(), "Frame") && is_keyword(
        fields[1].as_slice(),
        "Time:",
    ) {
        if is_keyword(fields[2].as_slice(), ":") {
            if fields.len() >= 4 {
                Some(copy_bytes(fields[3].as_slice()))
            } else {
                None
            }
        } else {
            Some(copy_bytes(fields[2].as_slice()))
        }
    } else {
        None
    }
}

impl SourceLine {
    /// A line that could not be read.
    pub fn unreadable() -> (line: SourceLine)
        ensures
            line@ == (LineModel {
                content: None,
                axes: Seq::empty(),
                values: Seq::empty(),
                frame_time: None,
            }),
    {
        SourceLine { content: None, axes: Vec::new(), values: Vec::new(), frame_time: None }
    }

    /// A line with the readings of its float fields.
    pub fn new(
        content: Vec<u8>,
        axes: Vec<Result<u32, NumberError>>,
        values: Vec<Result<u32, NumberError>>,
        frame_time: Option<Result<u64, NumberError>>,
    ) -> (line: SourceLine)
        ensures
            line@ == (LineModel {
                content: Some(content@),
                axes: axes@,
                values: values@,
                frame_time,
            }),
    {
        SourceLine { content: Some(content), axes, values, frame_time }
    }

    /// The fields whose readings `axes` holds, in order.
    pub fn axis_fields(content: &[u8]) -> (fields: Vec<Vec<u8>>)
        ensures
            field_views(fields@) == axis_fields_of(content@),
    {
        let all = split_keyword_fields(content);
        select_axis_fields(&all)
    }

    /// The fields whose readings `values` holds, in order.
    pub fn value_fields(content: &[u8]) -> (fields: Vec<Vec<u8>>)
        ensures
            field_views(fields@) == whitespace_fields(content@),
    {
        split_value_fields(content)
    }

    /// The field whose reading `frame_time` holds.
    pub fn frame_time_field(content: &[u8]) -> (field: Option<Vec<u8>>)
        ensures
            match frame_time_field_of(content@) {
                Some(bytes) => field is Some && field->Some_0@ == bytes,
                None => field is None,
            },
    {
        let fields = split_value_fields(content);
        select_frame_time_field(&fields)
    }
}

/// The position of the first line, from `from` on, that is unreadable or holds
/// more than whitespace; the number of lines if there is none.
pub open spec fn first_non_empty(lines: Seq<LineModel>, from: int) -> int
    decreases lines.len() - from,
{
    if from < 0 || from >= lines.len() {
        lines.len() as int
    } else if lines[from].content.is_some() && trimmed(lines[from].content.unwrap()).len() == 0 {
        first_non_empty(lines, from + 1)
    } else {
        from
    }
}

/// The lines of a document with a cursor. Line `n` (from 1) is `lines[n - 1]`.
pub struct EnumeratedLines {
    pub lines: Vec<SourceLine>,
    /// The number of lines that have been handed out, which is the number of the last of them.
    pub position: usize,
}

impl EnumeratedLines {
    /// Whether the cursor stands inside the document or at its end.
    pub open spec fn wf(&self) -> bool {
        self.position <= self.lines@.len()
    }

    /// The lines, as plain values.
    pub open spec fn models(&self) -> Seq<LineModel> {
        line_models(self.lines@)
    }

    pub fn new(lines: Vec<SourceLine>) -> (supplier: EnumeratedLines)
        ensures
            supplier.wf(),
            supplier.lines == lines,
            supplier.position == 0,
    {
        EnumeratedLines { lines, position: 0 }
    }

    /// Hands out the next line: its number, or `None` at the end of the document.
    pub fn next(&mut self) -> (number: Option<usize>)
        requires
            old(self).wf(),
        ensures
            final(self).wf(),
            final(self).lines == old(self).lines,
            old(self).position < old(self).lines@.len() ==> number == Some(
                (old(self).position + 1) as usize,
            ) && final(self).position == old(self).position + 1,
            old(self).position >= old(self).lines@.len() ==> number.is_none()
                && final(self).position == old(self).position,
    {
        if self.position < self.lines.len() {
            self.position = self.position + 1;
            Some(self.position)
        } else {
            None
        }
    }

    /// Skips the lines that hold nothing but whitespace, and hands out the
    /// first line that holds more or that could not be read: its number, or
    /// `None` if the document ends first.
    pub fn next_non_empty_line(&mut self) -> (number: Option<usize>)
        requires
            old(self).wf(),
        ensures
            final(self).wf(),
            final(self).lines == old(self).lines,
            ({
                let found = first_non_empty(old(self).models(), old(self).position as int);
                if found < old(self).lines@.len() {
                    number == Some((found + 1) as usize) && final(self).position == found + 1
                        && old(self).position <= found
                } else {
                    number.is_none() && final(self).position == old(self).lines@.len()
                }
            }),
    {
        while self.position < self.lines.len()
            invariant
                self.wf(),
                self.lines == old(self).lines,
                old(self).position <= self.position,
                first_non_empty(old(self).models(), old(self).position as int) == first_non_empty(
                    self.models(),
                    self.position as int,
                ),
            decreases self.lines@.len() - self.position,
        {
            let at: usize = self.position;
            self.position = self.position + 1;
            match &self.lines[at].content {
                None => {
                    return Some(self.position);
                },
                Some(bytes) => {
                    if !is_blank(bytes.as_slice()) {
                        return Some(self.position);
                    }
                },
            }
        }
        None
    }

    /// The number of the line that was handed out last; `None` before the first.
    pub fn last_enumerator(&self) -> (number: Option<usize>)
        ensures
            number == if self.position == 0 {
                None
            } else {
                Some(self.position)
            },
    {
        if self.position == 0 {
            None
        } else {
            Some(self.position)
        }
    }

    /// The line with the given number.
    pub fn line(&self, number: usize) -> (line: &SourceLine)
        requires
            1 <= number <= self.lines@.len(),
        ensures
            *line == self.lines@[number - 1],
    {
        &self.lines[number - 1]
    }
}

} // verus!
