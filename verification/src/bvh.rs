//! The result of reading a document: the skeleton and the motion matrix.

use vstd::prelude::*;
use crate::errors::{LoadJointsError, LoadMotionError};
use crate::hierarchy::{run, HierarchyParser, ParserModel};
use crate::joint::{joint_models, JointData, JointModel};
use crate::lines::{line_models, EnumeratedLines, LineModel, SourceLine};
use crate::motion::{motion, Clips, MotionModel};
use crate::order::{in_document_order, law_parent_encloses_child, parent_is_nearest};
use crate::tree::{
    channels_of, columns_in_order, declarations, is_tree, law_channels_number_columns,
    law_skeleton_is_tree,
};

verus! {

/// Why a document could not be read.
#[derive(Clone, Copy, Debug, PartialEq, Eq, Structural)]
pub enum LoadError {
    /// The skeleton could not be read.
    Joints(LoadJointsError),
    /// The motion section could not be read.
    Motion(LoadMotionError),
}

/// A document, as plain values.
pub struct BvhModel {
    pub joints: Seq<JointModel>,
    pub motion: MotionModel,
}

/// A document: the joints in the order of their declaration, and the motion matrix.
pub struct Bvh {
    pub joints: Vec<JointData>,
    pub clips: Clips,
}

impl View for Bvh {
    type V = BvhModel;

    open spec fn view(&self) -> BvhModel {
        BvhModel { joints: joint_models(self.joints@), motion: self.clips@ }
    }
}

/// The document that the lines hold: the skeleton that the lines from the
/// first on describe, and the motion section that the lines behind it hold.
pub open spec fn document(lines: Seq<LineModel>) -> Result<BvhModel, LoadError> {
    let skeleton = run(ParserModel::initial(), lines, 0);
    match skeleton.result {
        Err(e) => Err(LoadError::Joints(e)),
        Ok(state) => match motion(lines, skeleton.position, state.num_channels) {
            Err(e) => Err(LoadError::Motion(e)),
            Ok(matrix) => Ok(BvhModel { joints: state.joints, motion: matrix }),
        },
    }
}

/// What holds of every document that was read: the joints form a tree and
/// stand in the order of the document, each below the joint that encloses it;
/// their channels number the columns of the matrix; and the matrix holds one
/// value for each channel of each frame.
pub open spec fn well_formed(document: BvhModel) -> bool {
    &&& is_tree(document.joints)
    &&& in_document_order(document.joints)
    &&& forall|k: int|
        1 <= k < document.joints.len() ==> #[trigger] parent_is_nearest(document.joints, k)
    &&& columns_in_order(channels_of(document.joints))
    &&& channels_of(document.joints).len() == document.motion.num_channels
    &&& document.motion.data.len() == document.motion.num_channels * document.motion.num_frames
}

/// Every document that the lines give is well formed.
pub proof fn law_document_is_well_formed(lines: Seq<LineModel>)
    requires
        lines.len() <= usize::MAX,
        document(lines) is Ok,
    ensures
        well_formed(document(lines)->Ok_0),
{
    law_skeleton_is_tree(lines, 0);
    law_parent_encloses_child(lines, 0);
    law_channels_number_columns(lines, 0);
}

/// Reading is a function of the lines: two documents that were read from the
/// same lines hold the same joints and the same matrix.
pub proof fn law_same_lines_same_document(first: Bvh, second: Bvh, lines: Seq<LineModel>)
    requires
        document(lines) == Ok::<BvhModel, LoadError>(first@),
        document(lines) == Ok::<BvhModel, LoadError>(second@),
    ensures
        first@ == second@,
{
}

impl Default for Bvh {
    /// A document without joints and without motion.
    fn default() -> (bvh: Bvh)
        ensures
            bvh@.joints == Seq::<JointModel>::empty(),
            bvh@.motion == MotionModel::empty(),
    {
        Bvh::new()
    }
}

impl Bvh {
    /// A document without joints and without motion.
    pub fn new() -> (bvh: Bvh)
        ensures
            bvh@.joints == Seq::<JointModel>::empty(),
            bvh@.motion == MotionModel::empty(),
    {
        let bvh = Bvh { joints: Vec::new(), clips: Clips::empty() };
        assert(joint_models(bvh.joints@) =~= Seq::<JointModel>::empty());
        bvh
    }

    /// Reads the skeleton from the lines, from the supplier's position on, and
    /// stops behind the line that closes the brace of the root. The joints and
    /// the number of channels replace what the document held; on failure the
    /// document stays as it was.
    pub fn read_joints(&mut self, lines: &mut EnumeratedLines) -> (r: Result<(), LoadJointsError>)
        requires
            old(lines).wf(),
        ensures
            final(lines).wf(),
            final(lines).lines == old(lines).lines,
            ({
                let outcome = run(
                    ParserModel::initial(),
                    old(lines).models(),
                    old(lines).position as nat,
                );
                &&& final(lines).position == outcome.position
                &&& match outcome.result {
                    Ok(state) => {
                        &&& r is Ok
                        &&& final(self)@.joints == state.joints
                        &&& final(self)@.motion == (MotionModel {
                            num_channels: state.num_channels,
                            ..old(self)@.motion
                        })
                        &&& is_tree(state.joints)
                        &&& in_document_order(state.joints)
                        &&& forall|k: int|
                            1 <= k < state.joints.len() ==> #[trigger] parent_is_nearest(
                                state.joints,
                                k,
                            )
                        &&& state.joints.len() == declarations(
                            old(lines).models(),
                            old(lines).position as nat,
                            outcome.position,
                        )
                        &&& columns_in_order(channels_of(state.joints))
                        &&& channels_of(state.joints).len() == state.num_channels
                    },
                    Err(e) => r == Err::<(), LoadJointsError>(e) && final(self)@ == old(self)@,
                }
            }),
    {
        let total: usize = lines.lines.len();
        proof {
            let models = lines.models();
            assert(models.len() == total);
            if run(ParserModel::initial(), models, lines.position as nat).result is Ok {
                law_skeleton_is_tree(models, lines.position as nat);
                law_parent_encloses_child(models, lines.position as nat);
                law_channels_number_columns(models, lines.position as nat);
            }
        }
        match HierarchyParser::read(lines) {
            Err(e) => Err(e),
            Ok(parser) => {
                self.joints = parser.joints;
                self.clips.num_channels = parser.num_channels;
                Ok(())
            },
        }
    }

    /// Reads the motion section from the lines that are left, for the number
    /// of channels that the document holds. The matrix replaces what the
    /// document held; on failure the document stays as it was.
    pub fn read_motion(&mut self, lines: &mut EnumeratedLines) -> (r: Result<(), LoadMotionError>)
        requires
            old(lines).wf(),
        ensures
            final(lines).wf(),
            final(lines).lines == old(lines).lines,
            match motion(
                old(lines).models(),
                old(lines).position as nat,
                old(self)@.motion.num_channels,
            ) {
                Ok(matrix) => {
                    &&& r is Ok
                    &&& final(self)@ == (BvhModel { motion: matrix, ..old(self)@ })
                    &&& matrix.data.len() == matrix.num_channels * matrix.num_frames
                },
                Err(e) => r == Err::<(), LoadMotionError>(e) && final(self)@ == old(self)@,
            },
    {
        match Clips::read(lines, self.clips.num_channels) {
            Err(e) => Err(e),
            Ok(clips) => {
                self.clips = clips;
                Ok(())
            },
        }
    }

    /// Reads a document from its lines.
    pub fn from_lines(lines: Vec<SourceLine>) -> (r: Result<Bvh, LoadError>)
        ensures
            match document(line_models(lines@)) {
                Ok(model) => r is Ok && r->Ok_0@ == model && well_formed(model),
                Err(e) => r is Err && r->Err_0 == e,
            },
    {
        let mut supplier = EnumeratedLines::new(lines);
        let mut bvh = Bvh::new();
        match bvh.read_joints(&mut supplier) {
            Err(e) => {
                return Err(LoadError::Joints(e));
            },
            Ok(()) => {},
        }
        match bvh.read_motion(&mut supplier) {
            Err(e) => {
                return Err(LoadError::Motion(e));
            },
            Ok(()) => {},
        }
        Ok(bvh)
    }

    /// The joints, in the order of their declaration.
    pub fn joints(&self) -> (joints: &Vec<JointData>)
        ensures
            joint_models(joints@) == self@.joints,
    {
        &self.joints
    }

    /// The motion matrix.
    pub fn clips(&self) -> (clips: &Clips)
        ensures
            clips@ == self@.motion,
    {
        &self.clips
    }
}

} // verus!
