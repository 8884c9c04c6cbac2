//! The skeleton parser: a state machine that is fed one line at a time.
//!
//! The joints come out as a flat sequence in the order of the document. The
//! tree is rebuilt from the nesting of the braces alone: each joint records the
//! number of braces open around its declaration, and finds its parent as the
//! last joint before it that stands one level higher.

use vstd::prelude::*;
use crate::bytes::{is_keyword, keyword};
use crate::channel::{channel_items, channel_type_of, Channel, ChannelList, ChannelType, MAX_CHANNELS};
use crate::errors::{Axis, LoadJointsError, NumberError, ParseChannelError};
use crate::joint::{get_parent_index, joint_models, parent_lookup, JointData, JointKind, JointModel, Offset};
use crate::lines::{read_at, reading_at, EnumeratedLines, LineModel, SourceLine};
use crate::tokens::{field_views, keyword_fields, parse_count, parsed_count, split_keyword_fields};

verus! {

/// Where the parser stands in the skeleton.
#[derive(Clone, Copy, Debug, PartialEq, Eq, Structural)]
pub enum ParseMode {
    /// `HIERARCHY` has not been seen.
    NotStarted,
    /// In the hierarchy; `ROOT` comes next.
    ExpectRoot,
    /// In the hierarchy; a joint or an end site was declared and its `{` comes next.
    ExpectBrace,
    /// In the hierarchy, inside the braces of the root.
    InBlock,
    /// The brace of the root has been closed.
    Finished,
}

/// The state of the parser, as plain values.
pub struct ParserModel {
    pub mode: ParseMode,
    /// The joints that are complete, in the order of the document.
    pub joints: Seq<JointModel>,
    /// The joint that is being described. It counts only while `has_current` holds.
    pub current: JointModel,
    pub has_current: bool,
    /// Whether `current` is an end site.
    pub in_end_site: bool,
    /// The number of braces that are open.
    pub depth: usize,
    /// The number of channels declared so far: the column of the next one.
    pub num_channels: usize,
}

/// What a line of the skeleton is, by its first field.
#[derive(Clone, Copy, Debug, PartialEq, Eq, Structural)]
pub enum LineKind {
    /// `HIERARCHY`
    Hierarchy,
    /// `ROOT`
    Root,
    /// `{`
    Open,
    /// `}`
    Close,
    /// `End`
    End,
    /// `JOINT`
    Joint,
    /// `OFFSET`
    Offset,
    /// `CHANNELS`
    Channels,
    /// A line without fields, or one whose first field is no keyword.
    Other,
}

/// The kind of a line with the given fields.
pub open spec fn line_kind(fields: Seq<Seq<u8>>) -> LineKind {
    if fields.len() == 0 {
        LineKind::Other
    } else if fields[0] == keyword("HIERARCHY") {
        LineKind::Hierarchy
    } else if fields[0] == keyword("ROOT") {
        LineKind::Root
    } else if fields[0] == keyword("{") {
        LineKind::Open
    } else if fields[0] == keyword("}") {
        LineKind::Close
    } else if fields[0] == keyword("End") {
        LineKind::End
    } else if fields[0] == keyword("JOINT") {
        LineKind::Joint
    } else if fields[0] == keyword("OFFSET") {
        LineKind::Offset
    } else if fields[0] == keyword("CHANNELS") {
        LineKind::Channels
    } else {
        LineKind::Other
    }
}

/// Tells what a line with the given fields is.
pub fn classify(fields: &Vec<Vec<u8>>) -> (kind: LineKind)
    ensures
        kind == line_kind(field_views(fields@)),
{
    if fields.len() == 0 {
        return LineKind::Other;
    }
    let first = fields[0].as_slice();
    if is_keyword(first, "HIERARCHY") {
        LineKind::Hierarchy
    } else if is_keyword(first, "ROOT") {
        LineKind::Root
    } else if is_keyword(first, "{") {
        LineKind::Open
    } else if is_keyword(first, "}") {
        LineKind::Close
    } else if is_keyword(first, "End") {
        LineKind::End
    } else if is_keyword(first, "JOINT") {
        LineKind::Joint
    } else if is_keyword(first, "OFFSET") {
        LineKind::Offset
    } else if is_keyword(first, "CHANNELS") {
        LineKind::Channels
    } else {
        LineKind::Other
    }
}

/// The fields of a `CHANNELS` line that name the channels: those behind the count.
pub open spec fn channel_fields(fields: Seq<Seq<u8>>) -> Seq<Seq<u8>> {
    if fields.len() > 2 {
        fields.subrange(2, fields.len() as int)
    } else {
        Seq::empty()
    }
}

/// Whether every field names a channel.
pub open spec fn all_channels_known(kinds: Seq<Seq<u8>>) -> bool {
    forall|i: int| 0 <= i < kinds.len() ==> (#[trigger] channel_type_of(kinds[i])).is_some()
}

/// The channels that the fields name, numbered from `first_column` on.
pub open spec fn numbered_channels(kinds: Seq<Seq<u8>>, first_column: usize) -> Seq<Channel> {
    Seq::new(
        kinds.len(),
        |i: int|
            Channel {
                kind: channel_type_of(kinds[i]).unwrap(),
                column_index: (first_column + i) as usize,
            },
    )
}

impl ParserModel {
    /// The parser before the first line.
    pub open spec fn initial() -> ParserModel {
        ParserModel {
            mode: ParseMode::NotStarted,
            joints: Seq::empty(),
            current: JointModel::empty_root(),
            has_current: false,
            in_end_site: false,
            depth: 0,
            num_channels: 0,
        }
    }

    /// The limits that keep the counters inside the machine's integers, and
    /// the current joint's channels among those counted.
    pub open spec fn wf(self) -> bool {
        &&& self.depth < usize::MAX
        &&& self.current.depth < usize::MAX
        &&& self.current.channels.len() <= self.num_channels <= MAX_CHANNELS
    }

    /// The current joint as it enters the sequence: it takes the next position,
    /// and a child takes the parent that the reverse scan finds.
    pub open spec fn finalized(self) -> JointModel {
        JointModel {
            self_index: self.joints.len() as usize,
            parent_index: if self.current.kind == JointKind::Root {
                0
            } else {
                parent_lookup(self.joints, (self.current.depth + 1) as usize)
            },
            ..self.current
        }
    }

    /// The state after the current joint, if there is one, has entered the sequence.
    pub open spec fn append_current(self) -> ParserModel {
        if self.has_current {
            ParserModel {
                joints: self.joints.push(self.finalized()),
                current: JointModel::empty_child(),
                has_current: false,
                ..self
            }
        } else {
            self
        }
    }

    /// `HIERARCHY`: legal only before anything else.
    pub open spec fn on_hierarchy(self, line: usize) -> Result<ParserModel, LoadJointsError> {
        if self.mode == ParseMode::NotStarted {
            Ok(ParserModel { mode: ParseMode::ExpectRoot, ..self })
        } else {
            Err(LoadJointsError::UnexpectedHierarchy { line })
        }
    }

    /// `ROOT <name>`: legal only right behind `HIERARCHY`; starts the root joint.
    pub open spec fn on_root(self, line: usize, fields: Seq<Seq<u8>>) -> Result<
        ParserModel,
        LoadJointsError,
    > {
        if self.mode == ParseMode::NotStarted {
            Err(LoadJointsError::MissingHierarchy { line })
        } else if self.mode != ParseMode::ExpectRoot {
            Err(LoadJointsError::UnexpectedRoot { line })
        } else if fields.len() < 2 {
            Err(LoadJointsError::MissingRootName { line })
        } else {
            Ok(
                ParserModel {
                    mode: ParseMode::ExpectBrace,
                    current: JointModel { name: fields[1], ..JointModel::empty_root() },
                    has_current: true,
                    ..self
                },
            )
        }
    }

    /// `{`: legal only behind a declaration; one more brace is open.
    pub open spec fn on_open(self, line: usize) -> Result<ParserModel, LoadJointsError> {
        if self.mode == ParseMode::NotStarted {
            Err(LoadJointsError::MissingHierarchy { line })
        } else if self.mode != ParseMode::ExpectBrace || self.depth >= usize::MAX - 1 {
            Err(LoadJointsError::UnexpectedBrace { line })
        } else {
            Ok(ParserModel { mode: ParseMode::InBlock, depth: (self.depth + 1) as usize, ..self })
        }
    }

    /// `}`: legal only inside a block. It completes an end site, and the brace of
    /// the root completes whatever joint is left and finishes the skeleton.
    pub open spec fn on_close(self, line: usize) -> Result<ParserModel, LoadJointsError> {
        if self.mode == ParseMode::NotStarted {
            Err(LoadJointsError::MissingHierarchy { line })
        } else if self.mode != ParseMode::InBlock || self.depth == 0 {
            Err(LoadJointsError::UnexpectedBrace { line })
        } else {
            let closed = if self.in_end_site {
                ParserModel { in_end_site: false, ..self.append_current() }
            } else {
                self
            };
            if self.depth == 1 {
                Ok(ParserModel { mode: ParseMode::Finished, depth: 0, ..closed.append_current() })
            } else {
                Ok(ParserModel { depth: (self.depth - 1) as usize, ..closed })
            }
        }
    }

    /// The state after a child joint or an end site has been declared: the
    /// joint before it is complete, and the new one stands as deep as there are
    /// braces open.
    pub open spec fn declare(self, name: Seq<u8>, is_end_site: bool) -> ParserModel {
        ParserModel {
            mode: ParseMode::ExpectBrace,
            current: JointModel { name, depth: self.depth, ..JointModel::empty_child() },
            has_current: true,
            in_end_site: is_end_site,
            ..self.append_current()
        }
    }

    /// `JOINT <name>`: legal inside a block that is not an end site's; starts a child joint.
    pub open spec fn on_joint(self, line: usize, fields: Seq<Seq<u8>>) -> Result<
        ParserModel,
        LoadJointsError,
    > {
        if self.mode == ParseMode::NotStarted {
            Err(LoadJointsError::MissingHierarchy { line })
        } else if self.mode != ParseMode::InBlock || self.in_end_site {
            Err(LoadJointsError::UnexpectedJoint { line })
        } else if fields.len() < 2 {
            Err(LoadJointsError::MissingJointName { line })
        } else {
            Ok(self.declare(fields[1], false))
        }
    }

    /// `End Site`: legal inside a block that is not an end site's; starts an end site.
    pub open spec fn on_end_site(self, line: usize, fields: Seq<Seq<u8>>) -> Result<
        ParserModel,
        LoadJointsError,
    > {
        if self.mode == ParseMode::NotStarted {
            Err(LoadJointsError::MissingHierarchy { line })
        } else if self.mode != ParseMode::InBlock || self.in_end_site || fields.len() < 2
            || fields[1] != keyword("Site") {
            Err(LoadJointsError::UnexpectedEndSite { line })
        } else {
            Ok(self.declare(Seq::empty(), true))
        }
    }

    /// `OFFSET x y z`: legal inside a block while a joint is being described.
    /// `num_fields` counts the fields of the line, the keyword included. The
    /// axes are taken in order, so the first one that is missing or malformed is
    /// the one reported.
    pub open spec fn on_offset(
        self,
        line: usize,
        num_fields: nat,
        axes: Seq<Result<u32, NumberError>>,
    ) -> Result<ParserModel, LoadJointsError> {
        if self.mode != ParseMode::InBlock || !self.has_current {
            Err(LoadJointsError::UnexpectedOffsetSection { line })
        } else if num_fields < 2 {
            Err(LoadJointsError::MissingOffsetAxis { axis: Axis::X, line })
        } else if reading_at(axes, 0) is Err {
            Err(
                LoadJointsError::ParseOffsetError {
                    parse_float_error: reading_at(axes, 0)->Err_0,
                    axis: Axis::X,
                    line,
                },
            )
        } else if num_fields < 3 {
            Err(LoadJointsError::MissingOffsetAxis { axis: Axis::Y, line })
        } else if reading_at(axes, 1) is Err {
            Err(
                LoadJointsError::ParseOffsetError {
                    parse_float_error: reading_at(axes, 1)->Err_0,
                    axis: Axis::Y,
                    line,
                },
            )
        } else if num_fields < 4 {
            Err(LoadJointsError::MissingOffsetAxis { axis: Axis::Z, line })
        } else if reading_at(axes, 2) is Err {
            Err(
                LoadJointsError::ParseOffsetError {
                    parse_float_error: reading_at(axes, 2)->Err_0,
                    axis: Axis::Z,
                    line,
                },
            )
        } else {
            let offset = Offset {
                x: reading_at(axes, 0)->Ok_0,
                y: reading_at(axes, 1)->Ok_0,
                z: reading_at(axes, 2)->Ok_0,
            };
            Ok(ParserModel { current: self.current.with_offset(offset, self.in_end_site), ..self })
        }
    }

    /// `CHANNELS n c0 .. c(n-1)`: legal inside a block while a joint that is no
    /// end site is being described. `count` is the reading of the count, `None`
    /// if the line has no such field; `kinds` are the fields behind it. The
    /// channels are added to the joint's and take the next columns.
    pub open spec fn on_channels(
        self,
        line: usize,
        count: Option<Result<usize, NumberError>>,
        kinds: Seq<Seq<u8>>,
    ) -> Result<ParserModel, LoadJointsError> {
        if self.mode != ParseMode::InBlock || !self.has_current || self.in_end_site {
            Err(LoadJointsError::UnexpectedChannelsSection { line })
        } else if count is None {
            Err(LoadJointsError::ParseNumChannelsError { error: None, line })
        } else if count->Some_0 is Err {
            Err(LoadJointsError::ParseNumChannelsError { error: Some(count->Some_0->Err_0), line })
        } else if !all_channels_known(kinds) {
            Err(LoadJointsError::ParseChannelError { error: ParseChannelError, line })
        } else if kinds.len() != count->Some_0->Ok_0 {
            Err(
                LoadJointsError::ChannelCountMismatch {
                    expected: count->Some_0->Ok_0,
                    actual: kinds.len() as usize,
                    line,
                },
            )
        } else if self.num_channels + kinds.len() > MAX_CHANNELS {
            Err(LoadJointsError::TooManyChannels { line })
        } else {
            Ok(
                ParserModel {
                    current: JointModel {
                        channels: self.current.channels + numbered_channels(
                            kinds,
                            self.num_channels,
                        ),
                        ..self.current
                    },
                    num_channels: (self.num_channels + kinds.len()) as usize,
                    ..self
                },
            )
        }
    }

    /// The state after a line with the given fields; `count` is the reading of
    /// the second field as a number of channels. A line without fields, and one
    /// whose first field is no keyword, changes nothing.
    pub open spec fn apply_fields(
        self,
        line: usize,
        fields: Seq<Seq<u8>>,
        count: Result<usize, NumberError>,
        axes: Seq<Result<u32, NumberError>>,
    ) -> Result<ParserModel, LoadJointsError> {
        match line_kind(fields) {
            LineKind::Hierarchy => self.on_hierarchy(line),
            LineKind::Root => self.on_root(line, fields),
            LineKind::Open => self.on_open(line),
            LineKind::Close => self.on_close(line),
            LineKind::End => self.on_end_site(line, fields),
            LineKind::Joint => self.on_joint(line, fields),
            LineKind::Offset => self.on_offset(line, fields.len(), axes),
            LineKind::Channels => self.on_channels(
                line,
                if fields.len() > 1 {
                    Some(count)
                } else {
                    None
                },
                channel_fields(fields),
            ),
            LineKind::Other => Ok(self),
        }
    }

    /// The reading of the second field of a line as a number, as `lexical` gives it.
    pub open spec fn count_of(fields: Seq<Seq<u8>>) -> Result<usize, NumberError> {
        if fields.len() > 1 {
            parsed_count(fields[1])
        } else {
            Err(NumberError::NotRead)
        }
    }

    /// The state after a line of the document.
    pub open spec fn apply_line(self, number: usize, line: LineModel) -> Result<
        ParserModel,
        LoadJointsError,
    > {
        match line.content {
            None => Err(LoadJointsError::UnreadableLine { line: number }),
            Some(content) => {
                let fields = keyword_fields(content);
                self.apply_fields(number, fields, ParserModel::count_of(fields), line.axes)
            },
        }
    }
}

/// How a run over the lines of a document ends.
pub struct Outcome {
    /// The state in which the skeleton was finished, or the first error.
    pub result: Result<ParserModel, LoadJointsError>,
    /// The number of lines that were taken: that of the last line read.
    pub position: nat,
}

/// The run of the parser from state `state` over the lines behind the first
/// `from`. It stops behind the line that finishes the skeleton, at the first
/// line that fails, or at the end of the document, which is an error.
pub open spec fn run(state: ParserModel, lines: Seq<LineModel>, from: nat) -> Outcome
    decreases lines.len() - from,
{
    if from >= lines.len() {
        Outcome { result: Err(LoadJointsError::MissingRoot), position: from }
    } else {
        match state.apply_line((from + 1) as usize, lines[from as int]) {
            Err(e) => Outcome { result: Err(e), position: from + 1 },
            Ok(next) => if next.mode == ParseMode::Finished {
                Outcome { result: Ok(next), position: from + 1 }
            } else {
                run(next, lines, from + 1)
            },
        }
    }
}

/// The skeleton parser.
pub struct HierarchyParser {
    pub mode: ParseMode,
    pub joints: Vec<JointData>,
    pub current: JointData,
    pub has_current: bool,
    pub in_end_site: bool,
    pub depth: usize,
    pub num_channels: usize,
}

impl View for HierarchyParser {
    type V = ParserModel;

    open spec fn view(&self) -> ParserModel {
        ParserModel {
            mode: self.mode,
            joints: joint_models(self.joints@),
            current: self.current@,
            has_current: self.has_current,
            in_end_site: self.in_end_site,
            depth: self.depth,
            num_channels: self.num_channels,
        }
    }
}

/// What a step of the parser owes: on success the state that the model gives,
/// within the limits; on failure the model's error.
pub open spec fn step_done(
    expected: Result<ParserModel, LoadJointsError>,
    after: ParserModel,
    result: Result<(), LoadJointsError>,
) -> bool {
    match expected {
        Ok(model) => result.is_ok() && after == model && after.wf(),
        Err(e) => result == Err::<(), LoadJointsError>(e),
    }
}

impl HierarchyParser {
    /// A parser that has seen nothing.
    pub fn new() -> (parser: HierarchyParser)
        ensures
            parser@ == ParserModel::initial(),
            parser@.wf(),
    {
        let parser = HierarchyParser {
            mode: ParseMode::NotStarted,
            joints: Vec::new(),
            current: JointData::empty_root(),
            has_current: false,
            in_end_site: false,
            depth: 0,
            num_channels: 0,
        };
        assert(joint_models(parser.joints@) =~= Seq::<JointModel>::empty());
        parser
    }

    /// Whether the brace of the root has been closed.
    pub fn is_finished(&self) -> (finished: bool)
        ensures
            finished == (self@.mode == ParseMode::Finished),
    {
        self.mode == ParseMode::Finished
    }

    /// Completes the current joint, if there is one, and adds it to the sequence.
    pub fn append_current(&mut self)
        requires
            old(self)@.wf(),
        ensures
            final(self)@ == old(self)@.append_current(),
            final(self)@.wf(),
    {
        if self.has_current {
            let mut joint = JointData::empty_child();
            core::mem::swap(&mut self.current, &mut joint);
            joint.private.self_index = self.joints.len();
            joint.private.parent_index = if joint.is_root() {
                0
            } else {
                get_parent_index(&self.joints, joint.private.depth + 1)
            };
            self.joints.push(joint);
            self.has_current = false;
            assert(joint_models(self.joints@) =~= joint_models(old(self).joints@).push(
                old(self)@.finalized(),
            ));
        }
    }

    /// Takes a `HIERARCHY` line.
    pub fn on_hierarchy(&mut self, line: usize) -> (r: Result<(), LoadJointsError>)
        requires
            old(self)@.wf(),
        ensures
            step_done(old(self)@.on_hierarchy(line), final(self)@, r),
    {
        if self.mode == ParseMode::NotStarted {
            self.mode = ParseMode::ExpectRoot;
            Ok(())
        } else {
            Err(LoadJointsError::UnexpectedHierarchy { line })
        }
    }

    /// Takes a `ROOT` line with the given fields, the keyword first.
    pub fn on_root(&mut self, line: usize, fields: &Vec<Vec<u8>>) -> (r: Result<
        (),
        LoadJointsError,
    >)
        requires
            old(self)@.wf(),
        ensures
            step_done(old(self)@.on_root(line, field_views(fields@)), final(self)@, r),
    {
        if self.mode == ParseMode::NotStarted {
            Err(LoadJointsError::MissingHierarchy { line })
        } else if self.mode != ParseMode::ExpectRoot {
            Err(LoadJointsError::UnexpectedRoot { line })
        } else if fields.len() < 2 {
            Err(LoadJointsError::MissingRootName { line })
        } else {
            let mut root = JointData::empty_root();
            root.set_name(fields[1].as_slice());
            self.current = root;
            self.has_current = true;
            self.mode = ParseMode::ExpectBrace;
            Ok(())
        }
    }

    /// Takes a `{` line.
    pub fn on_open(&mut self, line: usize) -> (r: Result<(), LoadJointsError>)
        requires
            old(self)@.wf(),
        ensures
            step_done(old(self)@.on_open(line), final(self)@, r),
    {
        if self.mode == ParseMode::NotStarted {
            Err(LoadJointsError::MissingHierarchy { line })
        } else if self.mode != ParseMode::ExpectBrace || self.depth >= usize::MAX - 1 {
            Err(LoadJointsError::UnexpectedBrace { line })
        } else {
            self.depth = self.depth + 1;
            self.mode = ParseMode::InBlock;
            Ok(())
        }
    }

    /// Takes a `}` line.
    pub fn on_close(&mut self, line: usize) -> (r: Result<(), LoadJointsError>)
        requires
            old(self)@.wf(),
        ensures
            step_done(old(self)@.on_close(line), final(self)@, r),
    {
        if self.mode == ParseMode::NotStarted {
            Err(LoadJointsError::MissingHierarchy { line })
        } else if self.mode != ParseMode::InBlock || self.depth == 0 {
            Err(LoadJointsError::UnexpectedBrace { line })
        } else {
            if self.in_end_site {
                self.append_current();
                self.in_end_site = false;
            }
            self.depth = self.depth - 1;
            if self.depth == 0 {
                self.append_current();
                self.mode = ParseMode::Finished;
            }
            Ok(())
        }
    }

    /// Completes the current joint and starts a child joint or an end site.
    fn declare(&mut self, name: &[u8], is_end_site: bool)
        requires
            old(self)@.wf(),
        ensures
            final(self)@ == old(self)@.declare(name@, is_end_site),
            final(self)@.wf(),
    {
        self.append_current();
        let mut joint = JointData::empty_child();
        joint.set_name(name);
        joint.private.depth = self.depth;
        self.current = joint;
        self.has_current = true;
        self.in_end_site = is_end_site;
        self.mode = ParseMode::ExpectBrace;
    }

    /// Takes a `JOINT` line with the given fields, the keyword first.
    pub fn on_joint(&mut self, line: usize, fields: &Vec<Vec<u8>>) -> (r: Result<
        (),
        LoadJointsError,
    >)
        requires
            old(self)@.wf(),
        ensures
            step_done(old(self)@.on_joint(line, field_views(fields@)), final(self)@, r),
    {
        if self.mode == ParseMode::NotStarted {
            Err(LoadJointsError::MissingHierarchy { line })
        } else if self.mode != ParseMode::InBlock || self.in_end_site {
            Err(LoadJointsError::UnexpectedJoint { line })
        } else if fields.len() < 2 {
            Err(LoadJointsError::MissingJointName { line })
        } else {
            self.declare(fields[1].as_slice(), false);
            Ok(())
        }
    }

    /// Takes an `End` line with the given fields, the keyword first.
    pub fn on_end_site(&mut self, line: usize, fields: &Vec<Vec<u8>>) -> (r: Result<
        (),
        LoadJointsError,
    >)
        requires
            old(self)@.wf(),
        ensures
            step_done(old(self)@.on_end_site(line, field_views(fields@)), final(self)@, r),
    {
        if self.mode == ParseMode::NotStarted {
            Err(LoadJointsError::MissingHierarchy { line })
        } else if self.mode != ParseMode::InBlock || self.in_end_site || fields.len() < 2
            || !is_keyword(fields[1].as_slice(), "Site") {
            Err(LoadJointsError::UnexpectedEndSite { line })
        } else {
            let name: Vec<u8> = Vec::new();
            self.declare(name.as_slice(), true);
            Ok(())
        }
    }

    /// Takes an `OFFSET` line of `num_fields` fields, the keyword included,
    /// with the readings of the fields behind the keyword.
    pub fn on_offset(
        &mut self,
        line: usize,
        num_fields: usize,
        axes: &Vec<Result<u32, NumberError>>,
    ) -> (r: Result<(), LoadJointsError>)
        requires
            old(self)@.wf(),
        ensures
            step_done(old(self)@.on_offset(line, num_fields as nat, axes@), final(self)@, r),
    {
        if self.mode != ParseMode::InBlock || !self.has_current {
            return Err(LoadJointsError::UnexpectedOffsetSection { line });
        }
        if num_fields < 2 {
            return Err(LoadJointsError::MissingOffsetAxis { axis: Axis::X, line });
        }
        let x: u32 = match read_at(axes, 0) {
            Ok(bits) => bits,
            Err(e) => {
                return Err(
                    LoadJointsError::ParseOffsetError { parse_float_error: e, axis: Axis::X, line },
                );
            },
        };
        if num_fields < 3 {
            return Err(LoadJointsError::MissingOffsetAxis { axis: Axis::Y, line });
        }
        let y: u32 = match read_at(axes, 1) {
            Ok(bits) => bits,
            Err(e) => {
                return Err(
                    LoadJointsError::ParseOffsetError { parse_float_error: e, axis: Axis::Y, line },
                );
            },
        };
        if num_fields < 4 {
            return Err(LoadJointsError::MissingOffsetAxis { axis: Axis::Z, line });
        }
        let z: u32 = match read_at(axes, 2) {
            Ok(bits) => bits,
            Err(e) => {
                return Err(
                    LoadJointsError::ParseOffsetError { parse_float_error: e, axis: Axis::Z, line },
                );
            },
        };
        let in_end_site = self.in_end_site;
        self.current.set_offset(Offset { x, y, z }, in_end_site);
        Ok(())
    }

    /// Takes a `CHANNELS` line with the given fields, the keyword first, and
    /// the reading of its count (`None` if the line has no second field).
    #[verifier::loop_isolation(false)]
    pub fn on_channels(
        &mut self,
        line: usize,
        count: Option<Result<usize, NumberError>>,
        fields: &Vec<Vec<u8>>,
    ) -> (r: Result<(), LoadJointsError>)
        requires
            old(self)@.wf(),
        ensures
            step_done(
                old(self)@.on_channels(line, count, channel_fields(field_views(fields@))),
                final(self)@,
                r,
            ),
    {
        let ghost kinds = channel_fields(field_views(fields@));
        if self.mode != ParseMode::InBlock || !self.has_current || self.in_end_site {
            return Err(LoadJointsError::UnexpectedChannelsSection { line });
        }
        let expected: usize = match count {
            None => {
                return Err(LoadJointsError::ParseNumChannelsError { error: None, line });
            },
            Some(Err(e)) => {
                return Err(LoadJointsError::ParseNumChannelsError { error: Some(e), line });
            },
            Some(Ok(n)) => n,
        };
        let actual: usize = if fields.len() > 2 {
            fields.len() - 2
        } else {
            0
        };
        let mut types: Vec<ChannelType> = Vec::new();
        let mut i: usize = 0;
        while i < actual
            invariant
                i <= actual == kinds.len(),
                kinds == channel_fields(field_views(fields@)),
                actual > 0 ==> fields@.len() == actual + 2,
                types@.len() == i,
                forall|k: int|
                    #![trigger channel_type_of(kinds[k])]
                    #![trigger types@[k]]
                    0 <= k < i ==> channel_type_of(kinds[k]) == Some(types@[k]),
            decreases actual - i,
        {
            assert(kinds[i as int] == fields@[i + 2]@);
            match ChannelType::from_bytes(fields[i + 2].as_slice()) {
                Ok(kind) => {
                    types.push(kind);
                },
                Err(e) => {
                    return Err(LoadJointsError::ParseChannelError { error: e, line });
                },
            }
            i += 1;
        }
        assert(all_channels_known(kinds));
        if actual != expected {
            return Err(LoadJointsError::ChannelCountMismatch { expected, actual, line });
        }
        if actual > MAX_CHANNELS - self.num_channels {
            return Err(LoadJointsError::TooManyChannels { line });
        }
        let mut list = ChannelList::new();
        core::mem::swap(&mut self.current.channels, &mut list);
        let first: usize = self.num_channels;
        let ghost before = channel_items(list);
        let mut j: usize = 0;
        while j < actual
            invariant
                j <= actual == kinds.len() == types@.len(),
                before.len() + actual <= MAX_CHANNELS,
                first + actual <= MAX_CHANNELS,
                forall|k: int|
                    #![trigger channel_type_of(kinds[k])]
                    #![trigger types@[k]]
                    0 <= k < actual ==> channel_type_of(kinds[k]) == Some(types@[k]),
                channel_items(list) == before + numbered_channels(kinds, first).subrange(
                    0,
                    j as int,
                ),
            decreases actual - j,
        {
            list.push(Channel::new(types[j], first + j));
            assert(channel_items(list) =~= before + numbered_channels(kinds, first).subrange(
                0,
                j + 1,
            ));
            j += 1;
        }
        assert(numbered_channels(kinds, first).subrange(0, actual as int) =~= numbered_channels(
            kinds,
            first,
        ));
        self.current.set_channels(list);
        self.num_channels = first + actual;
        Ok(())
    }

    /// Takes a line that has been split into fields, with the readings of its axes.
    pub fn apply_fields(
        &mut self,
        line: usize,
        fields: &Vec<Vec<u8>>,
        axes: &Vec<Result<u32, NumberError>>,
    ) -> (r: Result<(), LoadJointsError>)
        requires
            old(self)@.wf(),
        ensures
            step_done(
                old(self)@.apply_fields(
                    line,
                    field_views(fields@),
                    ParserModel::count_of(field_views(fields@)),
                    axes@,
                ),
                final(self)@,
                r,
            ),
    {
        match classify(fields) {
            LineKind::Hierarchy => self.on_hierarchy(line),
            LineKind::Root => self.on_root(line, fields),
            LineKind::Open => self.on_open(line),
            LineKind::Close => self.on_close(line),
            LineKind::End => self.on_end_site(line, fields),
            LineKind::Joint => self.on_joint(line, fields),
            LineKind::Offset => self.on_offset(line, fields.len(), axes),
            LineKind::Channels => {
                let count = if fields.len() > 1 {
                    Some(parse_count(fields[1].as_slice()))
                } else {
                    None
                };
                self.on_channels(line, count, fields)
            },
            LineKind::Other => Ok(()),
        }
    }

    /// Takes a line of the document.
    pub fn apply_line(&mut self, number: usize, line: &SourceLine) -> (r: Result<
        (),
        LoadJointsError,
    >)
        requires
            old(self)@.wf(),
        ensures
            step_done(old(self)@.apply_line(number, line@), final(self)@, r),
    {
        match &line.content {
            None => Err(LoadJointsError::UnreadableLine { line: number }),
            Some(content) => {
                let fields = split_keyword_fields(content.as_slice());
                self.apply_fields(number, &fields, &line.axes)
            },
        }
    }

    /// Reads the skeleton: takes line after line until the brace of the root
    /// is closed. On success the parser holds the joints and the number of
    /// channels, and the supplier stands behind the closing line.
    pub fn read(lines: &mut EnumeratedLines) -> (r: Result<HierarchyParser, LoadJointsError>)
        requires
            old(lines).wf(),
        ensures
            final(lines).wf(),
            final(lines).lines == old(lines).lines,
            ({
                let outcome = run(
                    ParserModel::initial(),
                    old(lines).models(),
                    old(lines).position as nat,
                );
                &&& final(lines).position == outcome.position
                &&& match outcome.result {
                    Ok(model) => r is Ok && r->Ok_0@ == model && model.wf(),
                    Err(e) => r is Err && r->Err_0 == e,
                }
            }),
    {
        let mut parser = HierarchyParser::new();
        loop
            invariant
                lines.wf(),
                lines.lines == old(lines).lines,
                parser@.wf(),
                parser@.mode != ParseMode::Finished,
                run(ParserModel::initial(), old(lines).models(), old(lines).position as nat) == run(
                    parser@,
                    lines.models(),
                    lines.position as nat,
                ),
            decreases lines.lines@.len() - lines.position,
        {
            let number: usize = match lines.next() {
                None => {
                    return Err(LoadJointsError::MissingRoot);
                },
                Some(n) => n,
            };
            let line = lines.line(number);
            assert(lines.models()[number - 1] == line@);
            match parser.apply_line(number, line) {
                Err(e) => {
                    return Err(e);
                },
                Ok(()) => {},
            }
            if parser.is_finished() {
                return Ok(parser);
            }
        }
    }
}

} // verus!
