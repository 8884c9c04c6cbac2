//! Channels: the animated degrees of freedom of a joint.

use vstd::prelude::*;
use crate::bytes::{is_keyword, keyword};
use crate::errors::ParseChannelError;

verus! {

/// What a channel animates.
#[derive(Clone, Copy, Debug, PartialEq, Eq, Structural)]
pub enum ChannelType {
    RotationX,
    RotationY,
    RotationZ,
    PositionX,
    PositionY,
    PositionZ,
}

/// The channel that a keyword of a `CHANNELS` line stands for, if it stands for one.
pub open spec fn channel_type_of(token: Seq<u8>) -> Option<ChannelType> {
    if token == keyword("Xrotation") {
        Some(ChannelType::RotationX)
    } else if token == keyword("Yrotation") {
        Some(ChannelType::RotationY)
    } else if token == keyword("Zrotation") {
        Some(ChannelType::RotationZ)
    } else if token == keyword("Xposition") {
        Some(ChannelType::PositionX)
    } else if token == keyword("Yposition") {
        Some(ChannelType::PositionY)
    } else if token == keyword("Zposition") {
        Some(ChannelType::PositionZ)
    } else {
        None
    }
}

impl ChannelType {
    /// Reads a keyword of a `CHANNELS` line.
    pub fn from_bytes(token: &[u8]) -> (r: Result<ChannelType, ParseChannelError>)
        ensures
            r == match channel_type_of(token@) {
                Some(t) => Ok::<ChannelType, ParseChannelError>(t),
                None => Err(ParseChannelError),
            },
    {
        if is_keyword(token, "Xrotation") {
            Ok(ChannelType::RotationX)
        } else if is_keyword(token, "Yrotation") {
            Ok(ChannelType::RotationY)
        } else if is_keyword(token, "Zrotation") {
            Ok(ChannelType::RotationZ)
        } else if is_keyword(token, "Xposition") {
            Ok(ChannelType::PositionX)
        } else if is_keyword(token, "Yposition") {
            Ok(ChannelType::PositionY)
        } else if is_keyword(token, "Zposition") {
            Ok(ChannelType::PositionZ)
        } else {
            Err(ParseChannelError)
        }
    }

    /// Whether the channel is a rotation.
    pub fn is_rotation(&self) -> (r: bool)
        ensures
            r == (*self == ChannelType::RotationX || *self == ChannelType::RotationY || *self
                == ChannelType::RotationZ),
    {
        match self {
            ChannelType::RotationX | ChannelType::RotationY | ChannelType::RotationZ => true,
            _ => false,
        }
    }

    /// Whether the channel is a position.
    pub fn is_position(&self) -> (r: bool)
        ensures
            r == !(*self == ChannelType::RotationX || *self == ChannelType::RotationY || *self
                == ChannelType::RotationZ),
    {
        !self.is_rotation()
    }
}

/// A channel of a joint, with the column of the motion matrix that holds its values.
#[derive(Clone, Copy, Debug, PartialEq, Eq, Structural)]
pub struct Channel {
    pub kind: ChannelType,
    pub column_index: usize,
}

impl Channel {
    pub fn new(kind: ChannelType, column_index: usize) -> (c: Channel)
        ensures
            c == (Channel { kind, column_index }),
    {
        Channel { kind, column_index }
    }

    pub fn channel_type(&self) -> (kind: ChannelType)
        ensures
            kind == self.kind,
    {
        self.kind
    }

    pub fn motion_index(&self) -> (index: usize)
        ensures
            index == self.column_index,
    {
        self.column_index
    }
}

/// A number of channels that a list can hold on any machine. A list grows by
/// doubling and cannot grow once its bytes would pass `isize::MAX`. With 16
/// bytes to a channel on a 64-bit machine and 8 on a 32-bit one, that is at
/// 2^58 and at 2^27 channels; this limit lies just below the first and a
/// factor of two below the second.
pub const MAX_CHANNELS: usize = usize::MAX / 64;

/// The channels of one joint, in the order of their declaration.
///
/// The list is a `smallvec::SmallVec` that keeps up to six channels in place.
/// The verifier does not look inside it: `channel_items` names what it holds,
/// and the functions below say what the calls into `smallvec` do to that.
/// Nothing of this is proved.
#[verifier::external_body]
pub struct ChannelList {
    items: smallvec::SmallVec<[Channel; 6]>,
}

/// The channels that a list holds, first to last.
pub uninterp spec fn channel_items(list: ChannelList) -> Seq<Channel>;

impl ChannelList {
    /// `SmallVec::new`: a list that holds nothing.
    #[verifier::external_body]
    pub(crate) fn new() -> (list: ChannelList)
        ensures
            channel_items(list) == Seq::<Channel>::empty(),
    {
        ChannelList { items: smallvec::SmallVec::new() }
    }

    /// `SmallVec::len`: the number of channels held.
    #[verifier::external_body]
    pub(crate) fn len(&self) -> (n: usize)
        ensures
            n == channel_items(*self).len(),
    {
        self.items.len()
    }

    /// `SmallVec::push`: the channel is added behind the others. `push` gives up
    /// where the list is full and the bytes of the list, doubled, would pass
    /// `isize::MAX`; the bound leaves those lists out.
    #[verifier::external_body]
    pub(crate) fn push(&mut self, channel: Channel)
        requires
            channel_items(*old(self)).len() < MAX_CHANNELS,
        ensures
            channel_items(*final(self)) == channel_items(*old(self)).push(channel),
    {
        self.items.push(channel)
    }

    /// `SmallVec::as_slice`: the channels held, first to last, copied into a `Vec`.
    #[verifier::external_body]
    pub(crate) fn to_vec(&self) -> (channels: Vec<Channel>)
        ensures
            channels@ == channel_items(*self),
    {
        self.items.as_slice().to_vec()
    }
}

} // verus!
