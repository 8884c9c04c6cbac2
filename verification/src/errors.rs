//! What can go wrong while a document is read.

use vstd::prelude::*;

verus! {

/// One of the three axes of an offset.
#[derive(Clone, Copy, Debug, PartialEq, Eq, Structural)]
pub enum Axis {
    X,
    Y,
    Z,
}

/// Why a field could not be read as a number.
#[derive(Clone, Copy, Debug, PartialEq, Eq, Structural)]
pub enum NumberError {
    /// The number does not fit the type it is read into.
    Overflow,
    /// The byte at this position of the field is no part of a number.
    InvalidDigit(usize),
    /// The field holds no bytes.
    Empty,
    /// The number parser gave a reason that this library has no name for.
    Other,
    /// The caller handed over no reading for this field.
    NotRead,
}

/// A channel keyword that the format does not know.
#[derive(Clone, Copy, Debug, PartialEq, Eq, Structural)]
pub struct ParseChannelError;

/// Why the skeleton of a document could not be read. Every line number is 1-based.
#[derive(Clone, Copy, Debug, PartialEq, Eq, Structural)]
#[allow(inconsistent_fields)]
pub enum LoadJointsError {
    /// The line could not be read from its source.
    UnreadableLine { line: usize },
    /// The input ended before the brace of the root joint was closed.
    MissingRoot,
    /// A part of the skeleton came before the `HIERARCHY` keyword.
    MissingHierarchy { line: usize },
    /// A second `HIERARCHY` keyword.
    UnexpectedHierarchy { line: usize },
    /// A `ROOT` where none is expected.
    UnexpectedRoot { line: usize },
    /// A `ROOT` without a name.
    MissingRootName { line: usize },
    /// A `JOINT` where none can stand.
    UnexpectedJoint { line: usize },
    /// A `JOINT` without a name.
    MissingJointName { line: usize },
    /// An `End` that is not followed by `Site`, or an `End Site` where none can stand.
    UnexpectedEndSite { line: usize },
    /// A brace that opens nothing that was declared, or closes nothing that is open.
    UnexpectedBrace { line: usize },
    /// An `OFFSET` outside the description of a joint.
    UnexpectedOffsetSection { line: usize },
    /// A `CHANNELS` outside the description of a joint.
    UnexpectedChannelsSection { line: usize },
    /// An axis of an `OFFSET` is no number.
    ParseOffsetError { parse_float_error: NumberError, axis: Axis, line: usize },
    /// An `OFFSET` with fewer than three axes.
    MissingOffsetAxis { axis: Axis, line: usize },
    /// The count of a `CHANNELS` line is missing (`None`) or no number.
    ParseNumChannelsError { error: Option<NumberError>, line: usize },
    /// A `CHANNELS` line names a channel that the format does not know.
    ParseChannelError { error: ParseChannelError, line: usize },
    /// A `CHANNELS` line announces one number of channels and lists another.
    ChannelCountMismatch { expected: usize, actual: usize, line: usize },
    /// The skeleton holds more channels than a list can hold on the machine
    /// (`MAX_CHANNELS`).
    TooManyChannels { line: usize },
}

/// Why the motion section of a document could not be read. Every line number is 1-based.
#[derive(Clone, Copy, Debug, PartialEq, Eq, Structural)]
#[allow(inconsistent_fields)]
pub enum LoadMotionError {
    /// The line could not be read from its source.
    UnreadableLine { line: usize },
    /// The `MOTION` keyword is not the next line that holds anything.
    MissingMotionSection { line: usize },
    /// The `Frames:` line is missing, or its number is missing or malformed.
    MissingNumFrames { parse_error: Option<NumberError>, line: usize },
    /// The `Frame Time:` line is missing, or its number is missing or malformed.
    MissingFrameTime { parse_error: Option<NumberError>, line: usize },
    /// A value of the motion matrix is no number.
    ParseMotionSection { parse_error: NumberError, channel_index: usize, line: usize },
    /// The matrix does not hold one value for each channel of each frame.
    MotionCountMismatch {
        actual_total_motion_values: usize,
        expected_total_motion_values: usize,
        expected_num_frames: usize,
        expected_num_clips: usize,
    },
}

} // verus!
