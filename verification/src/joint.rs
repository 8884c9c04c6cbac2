//! Joints: the records of the skeleton.

use vstd::prelude::*;
use crate::bytes::copy_bytes;
use crate::channel::{channel_items, Channel, ChannelList};

verus! {

/// A displacement on three axes. Each axis is the bit pattern of a 32-bit float.
#[derive(Clone, Copy, Debug, PartialEq, Eq, Structural)]
pub struct Offset {
    pub x: u32,
    pub y: u32,
    pub z: u32,
}

impl Offset {
    /// The offset whose three axes are `+0.0`.
    pub fn zero() -> (o: Offset)
        ensures
            o == (Offset { x: 0, y: 0, z: 0 }),
    {
        Offset { x: 0, y: 0, z: 0 }
    }
}

/// Whether a joint is the root of the skeleton or has a parent.
#[derive(Clone, Copy, Debug, PartialEq, Eq, Structural)]
pub enum JointKind {
    Root,
    Child,
}

/// Where a joint stands in the flat sequence of joints.
#[derive(Clone, Copy, Debug, PartialEq, Eq, Structural)]
pub struct JointPrivateData {
    /// The joint's own position in the sequence.
    pub self_index: usize,
    /// The position of the joint's parent; 0 for the root.
    pub parent_index: usize,
    /// The number of joints between this one and the root, the root counted.
    pub depth: usize,
}

/// One joint, or one end site, of the skeleton.
pub struct JointData {
    pub kind: JointKind,
    /// The joint's name. An end site has none.
    pub name: Vec<u8>,
    /// Where the joint stands, seen from its parent.
    pub offset: Offset,
    /// Where the limb ends, seen from the parent: an end site has this, a joint has not.
    pub end_site_offset: Option<Offset>,
    pub channels: ChannelList,
    pub private: JointPrivateData,
}

/// What a joint holds, as plain values.
pub struct JointModel {
    pub kind: JointKind,
    pub name: Seq<u8>,
    pub offset: Offset,
    pub end_site_offset: Option<Offset>,
    pub channels: Seq<Channel>,
    pub self_index: usize,
    pub parent_index: usize,
    pub depth: usize,
}

impl JointModel {
    /// A root joint that has been told nothing yet.
    pub open spec fn empty_root() -> JointModel {
        JointModel {
            kind: JointKind::Root,
            name: Seq::empty(),
            offset: Offset { x: 0, y: 0, z: 0 },
            end_site_offset: None,
            channels: Seq::empty(),
            self_index: 0,
            parent_index: 0,
            depth: 0,
        }
    }

    /// A child joint that has been told nothing yet.
    pub open spec fn empty_child() -> JointModel {
        JointModel { kind: JointKind::Child, ..JointModel::empty_root() }
    }

    /// The joint with its offset set, or its end site's offset if `is_end_site`.
    pub open spec fn with_offset(self, offset: Offset, is_end_site: bool) -> JointModel {
        if is_end_site {
            JointModel { end_site_offset: Some(offset), ..self }
        } else {
            JointModel { offset, ..self }
        }
    }
}

impl View for JointData {
    type V = JointModel;

    open spec fn view(&self) -> JointModel {
        JointModel {
            kind: self.kind,
            name: self.name@,
            offset: self.offset,
            end_site_offset: self.end_site_offset,
            channels: channel_items(self.channels),
            self_index: self.private.self_index,
            parent_index: self.private.parent_index,
            depth: self.private.depth,
        }
    }
}

/// The views of a sequence of joints.
pub open spec fn joint_models(joints: Seq<JointData>) -> Seq<JointModel> {
    joints.map_values(|j: JointData| j@)
}

impl JointData {
    pub fn empty_root() -> (j: JointData)
        ensures
            j@ == JointModel::empty_root(),
    {
        JointData {
            kind: JointKind::Root,
            name: Vec::new(),
            offset: Offset::zero(),
            end_site_offset: None,
            channels: ChannelList::new(),
            private: JointPrivateData { self_index: 0, parent_index: 0, depth: 0 },
        }
    }

    pub fn empty_child() -> (j: JointData)
        ensures
            j@ == JointModel::empty_child(),
    {
        JointData {
            kind: JointKind::Child,
            name: Vec::new(),
            offset: Offset::zero(),
            end_site_offset: None,
            channels: ChannelList::new(),
            private: JointPrivateData { self_index: 0, parent_index: 0, depth: 0 },
        }
    }

    pub fn is_root(&self) -> (r: bool)
        ensures
            r == (self@.kind == JointKind::Root),
    {
        match self.kind {
            JointKind::Root => true,
            JointKind::Child => false,
        }
    }

    pub fn is_child(&self) -> (r: bool)
        ensures
            r == (self@.kind == JointKind::Child),
    {
        !self.is_root()
    }

    pub fn name(&self) -> (name: &Vec<u8>)
        ensures
            name@ == self@.name,
    {
        &self.name
    }

    pub fn offset(&self) -> (offset: Offset)
        ensures
            offset == self@.offset,
    {
        self.offset
    }

    pub fn end_site(&self) -> (offset: Option<Offset>)
        ensures
            offset == self@.end_site_offset,
    {
        self.end_site_offset
    }

    pub fn has_end_site(&self) -> (r: bool)
        ensures
            r == self@.end_site_offset.is_some(),
    {
        self.end_site_offset.is_some()
    }

    /// The joint's channels, in the order of their declaration.
    pub fn channels(&self) -> (channels: Vec<Channel>)
        ensures
            channels@ == self@.channels,
    {
        self.channels.to_vec()
    }

    pub fn num_channels(&self) -> (n: usize)
        ensures
            n == self@.channels.len(),
    {
        self.channels.len()
    }

    pub fn index(&self) -> (i: usize)
        ensures
            i == self@.self_index,
    {
        self.private.self_index
    }

    /// The parent's position in the sequence; `None` for the root.
    pub fn parent_index(&self) -> (i: Option<usize>)
        ensures
            i == if self@.kind == JointKind::Root {
                None
            } else {
                Some(self@.parent_index)
            },
    {
        match self.kind {
            JointKind::Root => None,
            JointKind::Child => Some(self.private.parent_index),
        }
    }

    pub fn depth(&self) -> (d: usize)
        ensures
            d == self@.depth,
    {
        self.private.depth
    }

    pub fn set_name(&mut self, name: &[u8])
        ensures
            final(self)@ == (JointModel { name: name@, ..old(self)@ }),
    {
        self.name = copy_bytes(name);
    }

    /// Sets the joint's offset, or that of its end site if `is_end_site`.
    pub fn set_offset(&mut self, offset: Offset, is_end_site: bool)
        ensures
            final(self)@ == old(self)@.with_offset(offset, is_end_site),
    {
        if is_end_site {
            self.end_site_offset = Some(offset);
        } else {
            self.offset = offset;
        }
    }

    pub(crate) fn set_channels(&mut self, channels: ChannelList)
        ensures
            final(self)@ == (JointModel { channels: channel_items(channels), ..old(self)@ }),
    {
        self.channels = channels;
    }
}

/// The parent that the reverse scan finds for a joint that is being closed while
/// `for_depth` braces are open around its contents: the position of the last
/// joint of `joints` that stands two levels less deep (at level 0 if there are
/// not two), and 0 if there is none.
pub open spec fn parent_lookup(joints: Seq<JointModel>, for_depth: usize) -> usize
    decreases joints.len(),
{
    if joints.len() == 0 {
        0
    } else if joints.last().depth == (if for_depth >= 2 {
        for_depth - 2
    } else {
        0
    }) {
        joints.last().self_index
    } else {
        parent_lookup(joints.drop_last(), for_depth)
    }
}

/// Finds the parent of a joint by scanning the joints before it from the last
/// to the first; see `parent_lookup`.
pub fn get_parent_index(joints: &Vec<JointData>, for_depth: usize) -> (parent: usize)
    ensures
        parent == parent_lookup(joint_models(joints@), for_depth),
{
    let target: usize = if for_depth >= 2 {
        for_depth - 2
    } else {
        0
    };
    let mut i: usize = joints.len();
    assert(joint_models(joints@).subrange(0, i as int) =~= joint_models(joints@));
    while i > 0
        invariant
            i <= joints.len(),
            target == (if for_depth >= 2 {
                for_depth - 2
            } else {
                0
            }),
            parent_lookup(joint_models(joints@), for_depth) == parent_lookup(
                joint_models(joints@).subrange(0, i as int),
                for_depth,
            ),
        decreases i,
    {
        let ghost prefix = joint_models(joints@).subrange(0, i as int);
        assert(prefix.last() == joints@[i - 1]@);
        assert(prefix.drop_last() =~= joint_models(joints@).subrange(0, i - 1));
        if joints[i - 1].depth() == target {
            return joints[i - 1].index();
        }
        i -= 1;
    }
    assert(joint_models(joints@).subrange(0, 0).len() == 0);
    0
}

} // verus!
