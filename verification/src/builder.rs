//! Building a document call by call, for documents that are written out in
//! source code rather than read from lines.

use vstd::prelude::*;
use crate::bvh::{Bvh, BvhModel};
use crate::bytes::keyword;
use crate::channel::{Channel, ChannelType, MAX_CHANNELS};
use crate::joint::{get_parent_index, joint_models, parent_lookup, JointData, JointModel, Offset};
use crate::motion::MotionModel;
use crate::time::{fraction_seconds_to_nanos, nanos_of_seconds};
use crate::tree::{
    channels_of, columns_in_order, indexed, lemma_channels_of_push, lemma_parent_lookup,
    level_covered,
};

verus! {

/// Builds a document from calls that follow its text: the root, then each
/// joint with its name, offset and channels, then the frames.
pub struct BvhLiteralBuilder {
    pub bvh: Bvh,
    /// The column of the next channel.
    pub current_channel_index: usize,
    /// The level at which the next joint stands. The caller raises it by one
    /// before the children of a joint and lowers it again behind them.
    pub current_depth: usize,
    /// The position of the next joint.
    pub current_index: usize,
    pub encountered_hierarchy: bool,
    pub encountered_root: bool,
    pub encountered_motion: bool,
    pub encountered_num_frames: bool,
    pub encountered_frame_time: bool,
    pub num_frames: usize,
}

/// A builder, as plain values.
pub struct BuilderModel {
    pub bvh: BvhModel,
    pub current_channel_index: usize,
    pub current_depth: usize,
    pub current_index: usize,
    pub encountered_hierarchy: bool,
    pub encountered_root: bool,
    pub encountered_motion: bool,
    pub encountered_num_frames: bool,
    pub encountered_frame_time: bool,
    pub num_frames: usize,
}

impl View for BvhLiteralBuilder {
    type V = BuilderModel;

    open spec fn view(&self) -> BuilderModel {
        BuilderModel {
            bvh: self.bvh@,
            current_channel_index: self.current_channel_index,
            current_depth: self.current_depth,
            current_index: self.current_index,
            encountered_hierarchy: self.encountered_hierarchy,
            encountered_root: self.encountered_root,
            encountered_motion: self.encountered_motion,
            encountered_num_frames: self.encountered_num_frames,
            encountered_frame_time: self.encountered_frame_time,
            num_frames: self.num_frames,
        }
    }
}

impl BuilderModel {
    /// The builder with other joints.
    pub open spec fn with_joints(self, joints: Seq<JointModel>) -> BuilderModel {
        BuilderModel { bvh: BvhModel { joints, ..self.bvh }, ..self }
    }

    /// The builder with another matrix.
    pub open spec fn with_motion(self, motion: MotionModel) -> BuilderModel {
        BuilderModel { bvh: BvhModel { motion, ..self.bvh }, ..self }
    }

    /// The builder with another joint in place of the last one; unchanged if
    /// it holds no joint.
    pub open spec fn with_last_joint(self, joint: JointModel) -> BuilderModel {
        if self.bvh.joints.len() == 0 {
            self
        } else {
            self.with_joints(self.bvh.joints.update(self.bvh.joints.len() - 1, joint))
        }
    }

    /// The child joint that `push_joint` adds: it takes the builder's position
    /// and level, and as its parent the last joint that stands one level
    /// higher, the first joint if there is none.
    pub open spec fn next_joint(self) -> JointModel {
        JointModel {
            self_index: self.current_index,
            parent_index: parent_lookup(self.bvh.joints, (self.current_depth + 1) as usize),
            depth: self.current_depth,
            ..JointModel::empty_child()
        }
    }

    /// The builder after `push_channel`: the last joint has one more channel,
    /// which holds the next column, and the next column is one further. A
    /// builder without a joint stays as it is.
    pub open spec fn with_channel(self, kind: ChannelType) -> BuilderModel {
        if self.bvh.joints.len() == 0 {
            self
        } else {
            BuilderModel {
                current_channel_index: (self.current_channel_index + 1) as usize,
                ..self.with_last_joint(
                    JointModel {
                        channels: self.bvh.joints.last().channels.push(
                            Channel { kind, column_index: self.current_channel_index },
                        ),
                        ..self.bvh.joints.last()
                    },
                )
            }
        }
    }
}

impl Default for BvhLiteralBuilder {
    /// A builder that holds an empty document.
    fn default() -> (builder: BvhLiteralBuilder)
        ensures
            builder@.bvh.joints == Seq::<JointModel>::empty(),
            builder@.bvh.motion == MotionModel::empty(),
            builder@.current_channel_index == 0,
            builder@.current_depth == 0,
            builder@.current_index == 0,
            builder@.num_frames == 0,
            !builder@.encountered_hierarchy && !builder@.encountered_root
                && !builder@.encountered_motion && !builder@.encountered_num_frames
                && !builder@.encountered_frame_time,
    {
        BvhLiteralBuilder {
            bvh: Bvh::new(),
            current_channel_index: 0,
            current_depth: 0,
            current_index: 0,
            encountered_hierarchy: false,
            encountered_root: false,
            encountered_motion: false,
            encountered_num_frames: false,
            encountered_frame_time: false,
            num_frames: 0,
        }
    }
}

impl BvhLiteralBuilder {
    /// Adds a root joint that has been told nothing yet.
    pub fn push_root(&mut self)
        requires
            old(self).current_index < usize::MAX,
        ensures
            final(self)@ == (BuilderModel {
                current_index: (old(self).current_index + 1) as usize,
                ..old(self)@.with_joints(old(self)@.bvh.joints.push(JointModel::empty_root()))
            }),
    {
        self.bvh.joints.push(JointData::empty_root());
        self.current_index = self.current_index + 1;
        assert(joint_models(self.bvh.joints@) =~= joint_models(old(self).bvh.joints@).push(
            JointModel::empty_root(),
        ));
    }

    /// Adds a child joint that has been told nothing but its place and its
    /// parent; see `next_joint`.
    pub fn push_joint(&mut self)
        requires
            old(self).current_index < usize::MAX,
            old(self).current_depth < usize::MAX,
        ensures
            final(self)@ == (BuilderModel {
                current_index: (old(self).current_index + 1) as usize,
                ..old(self)@.with_joints(old(self)@.bvh.joints.push(old(self)@.next_joint()))
            }),
    {
        let mut joint = JointData::empty_child();
        joint.private.self_index = self.current_index;
        joint.private.depth = self.current_depth;
        joint.private.parent_index = get_parent_index(&self.bvh.joints, self.current_depth + 1);
        self.bvh.joints.push(joint);
        self.current_index = self.current_index + 1;
        assert(joint_models(self.bvh.joints@) =~= joint_models(old(self).bvh.joints@).push(
            old(self)@.next_joint(),
        ));
    }

    /// Takes the last joint out of the document.
    fn take_last_joint(&mut self) -> (joint: Option<JointData>)
        ensures
            old(self)@.bvh.joints.len() == 0 ==> joint is None && final(self)@ == old(self)@,
            old(self)@.bvh.joints.len() > 0 ==> joint is Some && joint->Some_0@
                == old(self)@.bvh.joints.last() && final(self)@ == old(self)@.with_joints(
                old(self)@.bvh.joints.drop_last(),
            ),
    {
        let joint = self.bvh.joints.pop();
        if joint.is_some() {
            assert(joint_models(self.bvh.joints@) =~= joint_models(
                old(self).bvh.joints@,
            ).drop_last());
        }
        joint
    }

    /// Puts a joint behind the others.
    fn put_joint(&mut self, joint: JointData)
        ensures
            final(self)@ == old(self)@.with_joints(old(self)@.bvh.joints.push(joint@)),
    {
        self.bvh.joints.push(joint);
        assert(joint_models(self.bvh.joints@) =~= joint_models(old(self).bvh.joints@).push(joint@));
    }

    /// Names the last joint. Without a joint nothing happens.
    pub fn push_joint_name(&mut self, joint_name: &str)
        ensures
            final(self)@ == old(self)@.with_last_joint(
                JointModel { name: keyword(joint_name), ..old(self)@.bvh.joints.last() },
            ),
    {
        match self.take_last_joint() {
            None => {},
            Some(joint) => {
                let mut joint = joint;
                joint.set_name(joint_name.as_bytes());
                self.put_joint(joint);
                assert(self@.bvh.joints =~= old(self)@.with_last_joint(
                    JointModel { name: keyword(joint_name), ..old(self)@.bvh.joints.last() },
                ).bvh.joints);
            },
        }
    }

    /// Gives the last joint one more channel, which takes the next column.
    /// Without a joint nothing happens, and no column is counted.
    pub fn push_channel(&mut self, channel: ChannelType)
        requires
            old(self)@.bvh.joints.len() > 0 ==> old(self).current_channel_index < usize::MAX
                && old(self)@.bvh.joints.last().channels.len() < MAX_CHANNELS,
        ensures
            final(self)@ == old(self)@.with_channel(channel),
    {
        match self.take_last_joint() {
            None => {},
            Some(joint) => {
                let mut joint = joint;
                joint.channels.push(Channel::new(channel, self.current_channel_index));
                self.put_joint(joint);
                self.current_channel_index = self.current_channel_index + 1;
                assert(self@.bvh.joints =~= old(self)@.with_channel(channel).bvh.joints);
            },
        }
    }

    /// Sets the offset of the last joint, or that of its end site if
    /// `is_end_site`. Without a joint nothing happens.
    pub fn push_joint_offset(&mut self, offset: Offset, is_end_site: bool)
        ensures
            final(self)@ == old(self)@.with_last_joint(
                old(self)@.bvh.joints.last().with_offset(offset, is_end_site),
            ),
    {
        match self.take_last_joint() {
            None => {},
            Some(joint) => {
                let mut joint = joint;
                joint.set_offset(offset, is_end_site);
                self.put_joint(joint);
                assert(self@.bvh.joints =~= old(self)@.with_last_joint(
                    old(self)@.bvh.joints.last().with_offset(offset, is_end_site),
                ).bvh.joints);
            },
        }
    }

    /// Sets the time between two frames. The time is given in seconds, as the
    /// bits of a 64-bit float, and kept in nanoseconds.
    pub fn set_frame_time(&mut self, frame_time_secs: u64)
        ensures
            final(self)@ == old(self)@.with_motion(
                MotionModel {
                    frame_time: nanos_of_seconds(frame_time_secs),
                    ..old(self)@.bvh.motion
                },
            ),
    {
        self.bvh.clips.frame_time = fraction_seconds_to_nanos(frame_time_secs);
    }

    /// Sets the number of frames, and fixes the number of channels of the
    /// matrix at the number of channels pushed so far.
    pub fn set_num_frames(&mut self, num_frames: usize)
        ensures
            final(self)@ == (BuilderModel {
                num_frames,
                ..old(self)@.with_motion(
                    MotionModel {
                        num_channels: old(self).current_channel_index,
                        num_frames,
                        ..old(self)@.bvh.motion
                    },
                )
            }),
    {
        self.num_frames = num_frames;
        self.bvh.clips.num_channels = self.current_channel_index;
        self.bvh.clips.num_frames = num_frames;
    }

    /// Adds a value, the bit pattern of a 32-bit float, behind those of the matrix.
    pub fn push_motion(&mut self, motion: u32)
        ensures
            final(self)@ == old(self)@.with_motion(
                MotionModel {
                    data: old(self)@.bvh.motion.data.push(motion),
                    ..old(self)@.bvh.motion
                },
            ),
    {
        self.bvh.clips.data.push(motion);
    }

    /// Whether the matrix holds one value for each channel of each frame.
    pub fn check_valid_motion(&self) -> (valid: bool)
        ensures
            valid == (self@.bvh.motion.data.len() == self@.bvh.motion.num_channels
                * self@.bvh.motion.num_frames),
    {
        let actual: usize = self.bvh.clips.data.len();
        match self.bvh.clips.num_channels.checked_mul(self.bvh.clips.num_frames) {
            Some(expected) => actual == expected,
            None => false,
        }
    }

    /// Does nothing: a builder that is declared mutable and never changed uses this.
    pub fn suppress_unused_mut_warning(&mut self)
        ensures
            final(self)@ == old(self)@,
    {
    }
}

/// A child that is pushed where its level has a joint one level higher stands
/// below the last such joint: that joint is its parent, it stands before the
/// child, and no joint behind it stands at its level. This holds of a builder
/// whose joints record their positions and whose position counts them.
pub proof fn law_pushed_joint_stands_below_its_parent(builder: BuilderModel)
    requires
        indexed(builder.bvh.joints),
        builder.current_index == builder.bvh.joints.len(),
        1 <= builder.current_depth < usize::MAX,
        level_covered(builder.bvh.joints, builder.current_depth - 1),
    ensures
        builder.next_joint().parent_index < builder.next_joint().self_index,
        builder.bvh.joints[builder.next_joint().parent_index as int].depth + 1
            == builder.next_joint().depth,
        forall|m: int|
            builder.next_joint().parent_index < m < builder.bvh.joints.len() ==> (
            #[trigger] builder.bvh.joints[m]).depth != builder.next_joint().depth - 1,
{
    lemma_parent_lookup(builder.bvh.joints, (builder.current_depth + 1) as usize);
}

/// A channel that is pushed keeps the columns in order: where the channels
/// of all the joints hold the columns 0, 1, 2 and so on up to the builder's
/// next column, they do so afterwards.
pub proof fn law_pushed_channel_keeps_the_columns(builder: BuilderModel, kind: ChannelType)
    requires
        columns_in_order(channels_of(builder.bvh.joints)),
        channels_of(builder.bvh.joints).len() == builder.current_channel_index,
        builder.current_channel_index < usize::MAX,
    ensures
        columns_in_order(channels_of(builder.with_channel(kind).bvh.joints)),
        channels_of(builder.with_channel(kind).bvh.joints).len() == builder.with_channel(
            kind,
        ).current_channel_index,
{
    let joints = builder.bvh.joints;
    if joints.len() > 0 {
        let channel = Channel { kind, column_index: builder.current_channel_index };
        let last = JointModel { channels: joints.last().channels.push(channel), ..joints.last() };
        let after = builder.with_channel(kind).bvh.joints;
        assert(after =~= joints.drop_last().push(last));
        lemma_channels_of_push(joints.drop_last(), last);
        assert(channels_of(after) =~= channels_of(joints).push(channel));
        assert forall|i: int| 0 <= i < channels_of(after).len() implies (#[trigger] channels_of(
            after,
        )[i]).column_index == i by {
            if i < channels_of(joints).len() {
                assert(channels_of(after)[i] == channels_of(joints)[i]);
            }
        }
    }
}

} // verus!
