//! The motion section: the number of frames, the frame time, and the matrix
//! of channel values, one row per frame.

use vstd::prelude::*;
use crate::bytes::{copy_bytes, is_keyword, keyword};
use crate::errors::{LoadMotionError, NumberError};
use crate::lines::{
    first_non_empty, frame_time_field_of, read_at, reading_at, EnumeratedLines, LineModel,
    SourceLine,
};
use crate::time::{fraction_seconds_to_nanos, nanos_of_seconds};
use crate::tokens::{
    field_views, keyword_fields, parse_count, parsed_count, split_keyword_fields,
    split_value_fields, trim, trimmed, whitespace_fields,
};

verus! {

/// The motion matrix, as plain values.
pub struct MotionModel {
    pub num_channels: usize,
    pub num_frames: usize,
    /// The time between two frames, in nanoseconds.
    pub frame_time: u64,
    /// The values, frame after frame; each is the bit pattern of a 32-bit float.
    pub data: Seq<u32>,
}

impl MotionModel {
    /// A matrix without channels, frames or values.
    pub open spec fn empty() -> MotionModel {
        MotionModel { num_channels: 0, num_frames: 0, frame_time: 0, data: Seq::empty() }
    }
}

/// The line number that is cited when the document ends where a line is
/// needed: that of the last line, 0 if there is none.
pub open spec fn end_of_input(lines: Seq<LineModel>) -> usize {
    lines.len() as usize
}

/// Step one: the next line that holds anything must hold the keyword `MOTION`
/// and nothing else. The result is the number of lines taken.
pub open spec fn motion_keyword(lines: Seq<LineModel>, from: nat) -> Result<nat, LoadMotionError> {
    let at = first_non_empty(lines, from as int);
    if at >= lines.len() {
        Err(LoadMotionError::MissingMotionSection { line: end_of_input(lines) })
    } else if lines[at].content is None {
        Err(LoadMotionError::UnreadableLine { line: (at + 1) as usize })
    } else if trimmed(lines[at].content->Some_0) != keyword("MOTION") {
        Err(LoadMotionError::MissingMotionSection { line: (at + 1) as usize })
    } else {
        Ok((at + 1) as nat)
    }
}

/// Among the fields of a line, split as a skeleton line is, the one that
/// holds the number of frames: the field behind `Frames`, or the one behind a
/// colon that stands alone there. A line of another kind has none, nor has one
/// that ends before that field.
pub open spec fn frames_field_in(fields: Seq<Seq<u8>>) -> Option<Seq<u8>> {
    if fields.len() < 2 || fields[0] != keyword("Frames") {
        None
    } else if fields[1] == keyword(":") {
        if fields.len() >= 3 {
            Some(fields[2])
        } else {
            None
        }
    } else {
        Some(fields[1])
    }
}

/// The field of a line that holds the number of frames; see `frames_field_in`.
pub open spec fn frames_field_of(content: Seq<u8>) -> Option<Seq<u8>> {
    frames_field_in(keyword_fields(content))
}

/// What `lexical` reads the number of frames of a line as; `None` if the line
/// has no field for it.
pub open spec fn frames_reading(content: Seq<u8>) -> Option<Result<usize, NumberError>> {
    match frames_field_of(content) {
        None => None,
        Some(field) => Some(parsed_count(field)),
    }
}

/// What line `line` says of the number of frames, given the reading of its
/// number: the number, or that it is missing (no reading) or malformed.
pub open spec fn frame_count_of(reading: Option<Result<usize, NumberError>>, line: usize) -> Result<
    usize,
    LoadMotionError,
> {
    match reading {
        None => Err(LoadMotionError::MissingNumFrames { parse_error: None, line }),
        Some(Err(e)) => Err(LoadMotionError::MissingNumFrames { parse_error: Some(e), line }),
        Some(Ok(num_frames)) => Ok(num_frames),
    }
}

/// Step two: the next line that holds anything must be `Frames: <number>`.
/// The result is the number of frames and the number of lines taken.
pub open spec fn frame_count(lines: Seq<LineModel>, from: nat) -> Result<
    (usize, nat),
    LoadMotionError,
> {
    let at = first_non_empty(lines, from as int);
    if at >= lines.len() {
        Err(LoadMotionError::MissingNumFrames { parse_error: None, line: end_of_input(lines) })
    } else if lines[at].content is None {
        Err(LoadMotionError::UnreadableLine { line: (at + 1) as usize })
    } else {
        match frame_count_of(frames_reading(lines[at].content->Some_0), (at + 1) as usize) {
            Err(e) => Err(e),
            Ok(num_frames) => Ok((num_frames, (at + 1) as nat)),
        }
    }
}

/// What line `line` says of the frame time, given whether it has a field for
/// the time and the reading of that field in seconds: the time in
/// nanoseconds, or that it is missing (no field), not read or malformed.
pub open spec fn frame_time_of(
    field_found: bool,
    reading: Option<Result<u64, NumberError>>,
    line: usize,
) -> Result<u64, LoadMotionError> {
    if !field_found {
        Err(LoadMotionError::MissingFrameTime { parse_error: None, line })
    } else {
        match reading {
            None => Err(
                LoadMotionError::MissingFrameTime {
                    parse_error: Some(NumberError::NotRead),
                    line,
                },
            ),
            Some(Err(e)) => Err(LoadMotionError::MissingFrameTime { parse_error: Some(e), line }),
            Some(Ok(seconds)) => Ok(nanos_of_seconds(seconds)),
        }
    }
}

/// Step three: the next line that holds anything must be `Frame Time:
/// <seconds>`. The result is the frame time in nanoseconds and the number of
/// lines taken.
pub open spec fn frame_time(lines: Seq<LineModel>, from: nat) -> Result<
    (u64, nat),
    LoadMotionError,
> {
    let at = first_non_empty(lines, from as int);
    if at >= lines.len() {
        Err(LoadMotionError::MissingFrameTime { parse_error: None, line: end_of_input(lines) })
    } else if lines[at].content is None {
        Err(LoadMotionError::UnreadableLine { line: (at + 1) as usize })
    } else {
        match frame_time_of(
            frame_time_field_of(lines[at].content->Some_0) is Some,
            lines[at].frame_time,
            (at + 1) as usize,
        ) {
            Err(e) => Err(e),
            Ok(nanos) => Ok((nanos, (at + 1) as nat)),
        }
    }
}

/// The first of the first `upto` readings that is no number: its position and
/// the reason. `None` if all of them are numbers.
pub open spec fn first_failure(readings: Seq<Result<u32, NumberError>>, upto: nat) -> Option<
    (usize, NumberError),
>
    decreases upto,
{
    if upto == 0 {
        None
    } else if first_failure(readings, (upto - 1) as nat) is Some {
        first_failure(readings, (upto - 1) as nat)
    } else {
        match reading_at(readings, upto - 1) {
            Err(e) => Some(((upto - 1) as usize, e)),
            Ok(_) => None,
        }
    }
}

/// The first `count` readings, as numbers.
pub open spec fn values_of(readings: Seq<Result<u32, NumberError>>, count: nat) -> Seq<u32> {
    Seq::new(count, |i: int| reading_at(readings, i)->Ok_0)
}

/// Step four: every line that is left gives its fields as values, in order.
/// The result is `data` with the values of the lines behind the first `from`.
pub open spec fn motion_values(lines: Seq<LineModel>, from: nat, data: Seq<u32>) -> Result<
    Seq<u32>,
    LoadMotionError,
>
    decreases lines.len() - from,
{
    if from >= lines.len() {
        Ok(data)
    } else if lines[from as int].content is None {
        Err(LoadMotionError::UnreadableLine { line: (from + 1) as usize })
    } else {
        let count = whitespace_fields(lines[from as int].content->Some_0).len();
        match first_failure(lines[from as int].values, count) {
            Some((channel_index, parse_error)) => Err(
                LoadMotionError::ParseMotionSection {
                    parse_error,
                    channel_index,
                    line: (from + 1) as usize,
                },
            ),
            None => motion_values(
                lines,
                from + 1,
                data + values_of(lines[from as int].values, count),
            ),
        }
    }
}

/// Step five: the matrix must hold one value for each channel of each frame.
pub open spec fn checked_motion(
    num_channels: usize,
    num_frames: usize,
    frame_time: u64,
    data: Seq<u32>,
) -> Result<MotionModel, LoadMotionError> {
    if data.len() == num_channels * num_frames {
        Ok(MotionModel { num_channels, num_frames, frame_time, data })
    } else {
        Err(
            LoadMotionError::MotionCountMismatch {
                actual_total_motion_values: data.len() as usize,
                expected_total_motion_values: if num_channels * num_frames <= usize::MAX {
                    (num_channels * num_frames) as usize
                } else {
                    usize::MAX
                },
                expected_num_frames: num_frames,
                expected_num_clips: num_channels,
            },
        )
    }
}

/// The motion section that the lines behind the first `from` hold, for a
/// skeleton of `num_channels` channels.
pub open spec fn motion(lines: Seq<LineModel>, from: nat, num_channels: usize) -> Result<
    MotionModel,
    LoadMotionError,
> {
    match motion_keyword(lines, from) {
        Err(e) => Err(e),
        Ok(after_keyword) => match frame_count(lines, after_keyword) {
            Err(e) => Err(e),
            Ok((num_frames, after_count)) => match frame_time(lines, after_count) {
                Err(e) => Err(e),
                Ok((nanos, after_time)) => match motion_values(lines, after_time, Seq::empty()) {
                    Err(e) => Err(e),
                    Ok(values) => checked_motion(num_channels, num_frames, nanos, values),
                },
            },
        },
    }
}

/// A motion section that is read holds one value for each channel of each frame.
pub proof fn law_matrix_is_full(lines: Seq<LineModel>, from: nat, num_channels: usize)
    requires
        motion(lines, from, num_channels) is Ok,
    ensures
        motion(lines, from, num_channels)->Ok_0.data.len() == num_channels * motion(
            lines,
            from,
            num_channels,
        )->Ok_0.num_frames,
        motion(lines, from, num_channels)->Ok_0.num_channels == num_channels,
{
}

/// Once a reading has failed, the first failure stays what it is.
pub proof fn lemma_first_failure_stays(
    readings: Seq<Result<u32, NumberError>>,
    upto: nat,
    later: nat,
)
    requires
        first_failure(readings, upto) is Some,
        upto <= later,
    ensures
        first_failure(readings, later) == first_failure(readings, upto),
    decreases later,
{
    if later > upto {
        lemma_first_failure_stays(readings, upto, (later - 1) as nat);
    }
}

/// The motion matrix.
pub struct Clips {
    pub num_channels: usize,
    pub num_frames: usize,
    /// The time between two frames, in nanoseconds.
    pub frame_time: u64,
    /// The values, frame after frame; each is the bit pattern of a 32-bit float.
    pub data: Vec<u32>,
}

impl View for Clips {
    type V = MotionModel;

    open spec fn view(&self) -> MotionModel {
        MotionModel {
            num_channels: self.num_channels,
            num_frames: self.num_frames,
            frame_time: self.frame_time,
            data: self.data@,
        }
    }
}

/// The line number to cite when the document has ended.
fn last_line(lines: &EnumeratedLines) -> (number: usize)
    requires
        lines.position == lines.lines@.len(),
    ensures
        number == end_of_input(lines.models()),
{
    match lines.last_enumerator() {
        Some(number) => number,
        None => 0,
    }
}

/// Reads the `MOTION` keyword.
pub fn read_motion_keyword(lines: &mut EnumeratedLines) -> (r: Result<(), LoadMotionError>)
    requires
        old(lines).wf(),
    ensures
        final(lines).wf(),
        final(lines).lines == old(lines).lines,
        match motion_keyword(old(lines).models(), old(lines).position as nat) {
            Ok(position) => r is Ok && final(lines).position == position,
            Err(e) => r == Err::<(), LoadMotionError>(e),
        },
{
    let number: usize = match lines.next_non_empty_line() {
        None => {
            return Err(LoadMotionError::MissingMotionSection { line: last_line(lines) });
        },
        Some(number) => number,
    };
    let line = lines.line(number);
    assert(lines.models()[number - 1] == line@);
    match &line.content {
        None => Err(LoadMotionError::UnreadableLine { line: number }),
        Some(content) => {
            let rest = trim(content.as_slice());
            if is_keyword(rest.as_slice(), "MOTION") {
                Ok(())
            } else {
                Err(LoadMotionError::MissingMotionSection { line: number })
            }
        },
    }
}

/// Picks the field that holds the number of frames from the fields of a line.
pub fn select_frames_field(fields: &Vec<Vec<u8>>) -> (field: Option<Vec<u8>>)
    ensures
        match frames_field_in(field_views(fields@)) {
            Some(bytes) => field is Some && field->Some_0@ == bytes,
            None => field is None,
        },
{
    if fields.len() < 2 || !is_keyword(fields[0].as_slice(), "Frames") {
        None
    } else if is_keyword(fields[1].as_slice(), ":") {
        if fields.len() >= 3 {
            Some(copy_bytes(fields[2].as_slice()))
        } else {
            None
        }
    } else {
        Some(copy_bytes(fields[1].as_slice()))
    }
}

/// Tells what line `line` says of the number of frames, from the reading of its number.
pub fn frame_count_from(reading: Option<Result<usize, NumberError>>, line: usize) -> (r: Result<
    usize,
    LoadMotionError,
>)
    ensures
        r == frame_count_of(reading, line),
{
    match reading {
        None => Err(LoadMotionError::MissingNumFrames { parse_error: None, line }),
        Some(Err(e)) => Err(LoadMotionError::MissingNumFrames { parse_error: Some(e), line }),
        Some(Ok(num_frames)) => Ok(num_frames),
    }
}

/// Tells what line `line` says of the frame time, from the reading of its field.
pub fn frame_time_from(
    field_found: bool,
    reading: Option<Result<u64, NumberError>>,
    line: usize,
) -> (r: Result<u64, LoadMotionError>)
    ensures
        r == frame_time_of(field_found, reading, line),
{
    if !field_found {
        return Err(LoadMotionError::MissingFrameTime { parse_error: None, line });
    }
    match reading {
        None => Err(
            LoadMotionError::MissingFrameTime { parse_error: Some(NumberError::NotRead), line },
        ),
        Some(Err(e)) => Err(LoadMotionError::MissingFrameTime { parse_error: Some(e), line }),
        Some(Ok(seconds)) => Ok(fraction_seconds_to_nanos(seconds)),
    }
}

/// Reads the `Frames:` line: the number of frames.
pub fn read_frame_count(lines: &mut EnumeratedLines) -> (r: Result<usize, LoadMotionError>)
    requires
        old(lines).wf(),
    ensures
        final(lines).wf(),
        final(lines).lines == old(lines).lines,
        match frame_count(old(lines).models(), old(lines).position as nat) {
            Ok((num_frames, position)) => r == Ok::<usize, LoadMotionError>(num_frames)
                && final(lines).position == position,
            Err(e) => r == Err::<usize, LoadMotionError>(e),
        },
{
    let number: usize = match lines.next_non_empty_line() {
        None => {
            return Err(
                LoadMotionError::MissingNumFrames { parse_error: None, line: last_line(lines) },
            );
        },
        Some(number) => number,
    };
    let line = lines.line(number);
    assert(lines.models()[number - 1] == line@);
    match &line.content {
        None => Err(LoadMotionError::UnreadableLine { line: number }),
        Some(content) => {
            let fields = split_keyword_fields(content.as_slice());
            let reading = match select_frames_field(&fields) {
                None => None,
                Some(field) => Some(parse_count(field.as_slice())),
            };
            frame_count_from(reading, number)
        },
    }
}

/// Reads the `Frame Time:` line: the time between two frames, in nanoseconds.
pub fn read_frame_time(lines: &mut EnumeratedLines) -> (r: Result<u64, LoadMotionError>)
    requires
        old(lines).wf(),
    ensures
        final(lines).wf(),
        final(lines).lines == old(lines).lines,
        match frame_time(old(lines).models(), old(lines).position as nat) {
            Ok((nanos, position)) => r == Ok::<u64, LoadMotionError>(nanos)
                && final(lines).position == position,
            Err(e) => r == Err::<u64, LoadMotionError>(e),
        },
{
    let number: usize = match lines.next_non_empty_line() {
        None => {
            return Err(
                LoadMotionError::MissingFrameTime { parse_error: None, line: last_line(lines) },
            );
        },
        Some(number) => number,
    };
    let line = lines.line(number);
    assert(lines.models()[number - 1] == line@);
    match &line.content {
        None => Err(LoadMotionError::UnreadableLine { line: number }),
        Some(content) => {
            let field = SourceLine::frame_time_field(content.as_slice());
            frame_time_from(field.is_some(), line.frame_time, number)
        },
    }
}

/// Reads the values of one line and adds them to `data`. `count` is the
/// number of fields of the line, `number` the number of the line.
pub fn read_line_values(
    data: &mut Vec<u32>,
    number: usize,
    count: usize,
    readings: &Vec<Result<u32, NumberError>>,
) -> (r: Result<(), LoadMotionError>)
    ensures
        match first_failure(readings@, count as nat) {
            Some((channel_index, parse_error)) => r == Err::<(), LoadMotionError>(
                LoadMotionError::ParseMotionSection { parse_error, channel_index, line: number },
            ),
            None => r is Ok && final(data)@ == old(data)@ + values_of(readings@, count as nat),
        },
{
    let mut i: usize = 0;
    assert(data@ =~= old(data)@ + values_of(readings@, 0));
    while i < count
        invariant
            i <= count,
            first_failure(readings@, i as nat) is None,
            data@ == old(data)@ + values_of(readings@, i as nat),
        decreases count - i,
    {
        match read_at(readings, i) {
            Err(e) => {
                proof {
                    lemma_first_failure_stays(readings@, (i + 1) as nat, count as nat);
                }
                return Err(
                    LoadMotionError::ParseMotionSection {
                        parse_error: e,
                        channel_index: i,
                        line: number,
                    },
                );
            },
            Ok(value) => {
                data.push(value);
                assert(data@ =~= old(data)@ + values_of(readings@, (i + 1) as nat));
            },
        }
        i += 1;
    }
    Ok(())
}

/// Reads the values of all the lines that are left.
pub fn read_motion_values(lines: &mut EnumeratedLines) -> (r: Result<Vec<u32>, LoadMotionError>)
    requires
        old(lines).wf(),
    ensures
        final(lines).wf(),
        final(lines).lines == old(lines).lines,
        match motion_values(old(lines).models(), old(lines).position as nat, Seq::empty()) {
            Ok(values) => r is Ok && r->Ok_0@ == values && final(lines).position == old(lines).lines@.len(),
            Err(e) => r == Err::<Vec<u32>, LoadMotionError>(e),
        },
{
    let mut data: Vec<u32> = Vec::new();
    loop
        invariant
            lines.wf(),
            lines.lines == old(lines).lines,
            motion_values(old(lines).models(), old(lines).position as nat, Seq::empty())
                == motion_values(lines.models(), lines.position as nat, data@),
        decreases lines.lines@.len() - lines.position,
    {
        let number: usize = match lines.next() {
            None => {
                return Ok(data);
            },
            Some(number) => number,
        };
        let line = lines.line(number);
        assert(lines.models()[number - 1] == line@);
        match &line.content {
            None => {
                return Err(LoadMotionError::UnreadableLine { line: number });
            },
            Some(content) => {
                let fields = split_value_fields(content.as_slice());
                assert(field_views(fields@).len() == fields@.len());
                match read_line_values(&mut data, number, fields.len(), &line.values) {
                    Err(e) => {
                        return Err(e);
                    },
                    Ok(()) => {},
                }
            },
        }
    }
}

/// The rows of a matrix of the given width: the values cut into runs of
/// `width`, without what is left over at the end. No width, no rows.
pub open spec fn rows_of(data: Seq<u32>, width: nat) -> Seq<Seq<u32>> {
    if width == 0 {
        Seq::empty()
    } else {
        Seq::new(data.len() / width, |i: int| data.subrange(i * width, i * width + width))
    }
}

/// A matrix that holds one value for each channel of each frame, and has a
/// channel at all, has one row for each frame, and each row holds one value
/// for each channel: row `i` holds the values from position `i * width` on.
pub proof fn law_full_matrix_has_its_frames(matrix: MotionModel)
    requires
        matrix.data.len() == matrix.num_channels * matrix.num_frames,
        matrix.num_channels > 0,
    ensures
        rows_of(matrix.data, matrix.num_channels as nat).len() == matrix.num_frames,
        forall|i: int|
            0 <= i < matrix.num_frames ==> (#[trigger] rows_of(
                matrix.data,
                matrix.num_channels as nat,
            )[i]).len() == matrix.num_channels,
{
    let width = matrix.num_channels as int;
    let count = matrix.num_frames as int;
    let total = matrix.data.len() as int;
    assert(total / width == count) by (nonlinear_arith)
        requires
            total == width * count,
            width > 0,
    ;
    assert forall|i: int| 0 <= i < count implies (#[trigger] rows_of(
        matrix.data,
        matrix.num_channels as nat,
    )[i]).len() == matrix.num_channels by {
        assert(0 <= i * width && i * width + width <= total) by (nonlinear_arith)
            requires
                0 <= i < count,
                total == width * count,
                width > 0,
        ;
    }
}

/// The rows that a vector of rows holds.
pub open spec fn row_views(rows: Seq<Vec<u32>>) -> Seq<Seq<u32>> {
    rows.map_values(|row: Vec<u32>| row@)
}

impl Clips {
    /// The time between two frames, in nanoseconds.
    pub fn frame_time(&self) -> (nanos: u64)
        ensures
            nanos == self@.frame_time,
    {
        self.frame_time
    }

    pub fn num_frames(&self) -> (n: usize)
        ensures
            n == self@.num_frames,
    {
        self.num_frames
    }

    pub fn num_channels(&self) -> (n: usize)
        ensures
            n == self@.num_channels,
    {
        self.num_channels
    }

    /// The frames: the values of the matrix, row by row.
    pub fn frames(&self) -> (rows: Vec<Vec<u32>>)
        ensures
            row_views(rows@) == rows_of(self@.data, self@.num_channels as nat),
    {
        let width: usize = self.num_channels;
        let total: usize = self.data.len();
        let mut rows: Vec<Vec<u32>> = Vec::new();
        if width == 0 {
            assert(row_views(rows@) =~= Seq::<Seq<u32>>::empty());
            return rows;
        }
        let mut start: usize = 0;
        assert(rows@.len() * width == 0) by (nonlinear_arith)
            requires
                rows@.len() == 0,
        ;
        while total - start >= width
            invariant
                width == self.num_channels > 0,
                total == self.data@.len(),
                start <= total,
                start == rows@.len() * width,
                forall|i: int|
                    0 <= i < rows@.len() ==> (#[trigger] rows@[i])@ == self.data@.subrange(
                        i * width,
                        i * width + width,
                    ),
            decreases total - start,
        {
            let mut row: Vec<u32> = Vec::new();
            let mut c: usize = 0;
            while c < width
                invariant
                    c <= width,
                    start + width <= total == self.data@.len(),
                    row@ == self.data@.subrange(start as int, start + c),
                decreases width - c,
            {
                row.push(self.data[start + c]);
                assert(row@ =~= self.data@.subrange(start as int, start + c + 1));
                c += 1;
            }
            let ghost before = rows@;
            rows.push(row);
            assert((before.len() + 1) * width == start + width) by (nonlinear_arith)
                requires
                    start == before.len() * width,
            ;
            assert forall|i: int| 0 <= i < rows@.len() implies (#[trigger] rows@[i])@
                == self.data@.subrange(i * width, i * width + width) by {
                if i < before.len() {
                    assert(rows@[i] == before[i]);
                }
            }
            start = start + width;
        }
        let ghost count = rows@.len() as int;
        assert(count == total as int / width as int) by (nonlinear_arith)
            requires
                count * width <= total < count * width + width,
                width > 0,
        ;
        assert(row_views(rows@) =~= rows_of(self@.data, self@.num_channels as nat));
        rows
    }

    /// A matrix without channels, frames or values.
    pub fn empty() -> (clips: Clips)
        ensures
            clips@ == MotionModel::empty(),
    {
        Clips { num_channels: 0, num_frames: 0, frame_time: 0, data: Vec::new() }
    }

    /// Whether the matrix holds one value for each channel of each frame.
    pub open spec fn is_full(&self) -> bool {
        self.data@.len() == self.num_channels * self.num_frames
    }

    /// Checks that the values fill the matrix, and makes it.
    pub fn checked(num_channels: usize, num_frames: usize, frame_time: u64, data: Vec<u32>) -> (r:
        Result<Clips, LoadMotionError>)
        ensures
            match checked_motion(num_channels, num_frames, frame_time, data@) {
                Ok(model) => r is Ok && r->Ok_0@ == model && r->Ok_0.is_full(),
                Err(e) => r is Err && r->Err_0 == e,
            },
    {
        let expected: usize = match num_channels.checked_mul(num_frames) {
            Some(product) => product,
            None => usize::MAX,
        };
        if num_channels.checked_mul(num_frames).is_some() && data.len() == expected {
            Ok(Clips { num_channels, num_frames, frame_time, data })
        } else {
            Err(
                LoadMotionError::MotionCountMismatch {
                    actual_total_motion_values: data.len(),
                    expected_total_motion_values: expected,
                    expected_num_frames: num_frames,
                    expected_num_clips: num_channels,
                },
            )
        }
    }

    /// Reads the motion section of a document whose skeleton has
    /// `num_channels` channels. All the lines that are left are taken.
    pub fn read(lines: &mut EnumeratedLines, num_channels: usize) -> (r: Result<
        Clips,
        LoadMotionError,
    >)
        requires
            old(lines).wf(),
        ensures
            final(lines).wf(),
            final(lines).lines == old(lines).lines,
            match motion(old(lines).models(), old(lines).position as nat, num_channels) {
                Ok(model) => r is Ok && r->Ok_0@ == model && r->Ok_0.is_full(),
                Err(e) => r is Err && r->Err_0 == e,
            },
    {
        match read_motion_keyword(lines) {
            Err(e) => {
                return Err(e);
            },
            Ok(()) => {},
        }
        let num_frames: usize = match read_frame_count(lines) {
            Err(e) => {
                return Err(e);
            },
            Ok(n) => n,
        };
        let frame_time: u64 = match read_frame_time(lines) {
            Err(e) => {
                return Err(e);
            },
            Ok(nanos) => nanos,
        };
        let data: Vec<u32> = match read_motion_values(lines) {
            Err(e) => {
                return Err(e);
            },
            Ok(values) => values,
        };
        Clips::checked(num_channels, num_frames, frame_time, data)
    }
}

} // verus!
