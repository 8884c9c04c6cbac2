//! Parsing and modelling of BVH (Biovision Hierarchy) motion-capture documents.
//!
//! A document is a skeleton (`HIERARCHY`) followed by a matrix of channel
//! values (`MOTION`). The skeleton is kept as a flat sequence of joints that
//! refer to their parents by index, the values as one row per frame.
//!
//! The library does no floating-point arithmetic. Every number of a document
//! that is a float is carried as the bit pattern of its IEEE 754 encoding, and
//! the caller reads the float fields of each line before handing the line over.

pub mod builder;
pub mod bvh;
pub mod bytes;
pub mod channel;
pub mod errors;
pub mod hierarchy;
pub mod joint;
pub mod lines;
pub mod motion;
pub mod order;
pub mod time;
pub mod tokens;
pub mod tree;

pub use crate::builder::BvhLiteralBuilder;
pub use crate::bvh::{Bvh, LoadError};
pub use crate::channel::{Channel, ChannelList, ChannelType};
pub use crate::errors::{Axis, LoadJointsError, LoadMotionError, NumberError, ParseChannelError};
pub use crate::joint::{JointData, JointKind, JointPrivateData, Offset};
pub use crate::lines::{EnumeratedLines, SourceLine};
pub use crate::motion::Clips;
pub use crate::time::fraction_seconds_to_nanos;
