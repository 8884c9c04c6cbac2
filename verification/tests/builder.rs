use bvh_anim::{Bvh, BvhLiteralBuilder, ChannelType, JointKind, Offset};
use std::time::Duration;

fn offset(x: f32, y: f32, z: f32) -> Offset {
    Offset { x: x.to_bits(), y: y.to_bits(), z: z.to_bits() }
}

fn assert_empty(bvh: &Bvh) {
    assert!(bvh.joints().iter().next().is_none());
    assert_eq!(Duration::from_nanos(bvh.clips().frame_time()), Duration::default());
    assert!(bvh.clips().frames().iter().next().is_none());
}

#[test]
fn test_macro() {
    let mut builder = BvhLiteralBuilder::default();
    builder.push_root();
    builder.push_joint_name("Base");
    builder.current_depth += 1;
    builder.push_joint_offset(offset(0.0, 0.0, 0.0), false);
    builder.push_channel(ChannelType::PositionX);
    builder.push_channel(ChannelType::PositionY);
    builder.push_channel(ChannelType::PositionZ);
    builder.push_channel(ChannelType::RotationZ);
    builder.push_channel(ChannelType::RotationX);
    builder.push_channel(ChannelType::RotationY);
    builder.push_joint();
    builder.push_joint_name("End");
    builder.current_depth += 1;
    builder.push_joint_offset(offset(0.0, 0.0, 15.0), false);
    builder.push_channel(ChannelType::RotationZ);
    builder.push_channel(ChannelType::RotationX);
    builder.push_channel(ChannelType::RotationY);
    builder.push_joint_offset(offset(0.0, 0.0, 30.0), true);
    builder.current_depth -= 1;
    builder.current_depth -= 1;
    builder.set_num_frames(1);
    builder.set_frame_time(0.033333333333f64.to_bits());
    for _ in 0..9 {
        builder.push_motion(0.0f32.to_bits());
    }
    assert!(builder.check_valid_motion());
    let bvh = builder.bvh;

    assert_eq!(Duration::from_nanos(bvh.clips().frame_time()), Duration::from_nanos(33333333));

    let mut num_frames = 0;
    for frame in bvh.clips().frames() {
        let mut num_channels = 0;
        for channel in frame.iter() {
            assert_eq!(f32::from_bits(*channel), 0.0);
            num_channels += 1;
        }

        assert_eq!(num_channels, 9);
        num_frames += 1;
    }
    assert_eq!(num_frames, 1);
}

#[test]
fn test_empty_create() {
    let empty = Bvh::default();
    assert_empty(&empty);

    let mut builder = BvhLiteralBuilder::default();
    builder.suppress_unused_mut_warning();
    let empty_2 = builder.bvh;
    assert_empty(&empty_2);
}

#[test]
fn builder_records_joints_in_order() {
    let mut builder = BvhLiteralBuilder::default();
    builder.push_root();
    builder.push_joint_name("Base");
    builder.current_depth += 1;
    builder.push_channel(ChannelType::PositionX);
    builder.push_joint();
    builder.push_joint_name("Arm");
    builder.current_depth += 1;
    builder.push_joint_offset(offset(1.0, 2.0, 3.0), false);
    builder.push_channel(ChannelType::RotationZ);
    builder.push_channel(ChannelType::RotationX);
    builder.push_joint_offset(offset(4.0, 5.0, 6.0), true);
    builder.current_depth -= 1;
    builder.current_depth -= 1;
    assert_eq!(builder.current_index, 2);
    assert_eq!(builder.current_channel_index, 3);
    assert_eq!(builder.current_depth, 0);

    let bvh = builder.bvh;
    let joints = bvh.joints();
    assert_eq!(joints.len(), 2);
    assert_eq!(joints[0].kind, JointKind::Root);
    assert_eq!(joints[0].name().as_slice(), b"Base");
    assert_eq!(joints[0].parent_index(), None);
    assert_eq!(joints[0].depth(), 0);
    assert_eq!(joints[0].channels().len(), 1);
    assert_eq!(joints[0].channels()[0].channel_type(), ChannelType::PositionX);
    assert_eq!(joints[0].channels()[0].motion_index(), 0);
    assert_eq!(joints[1].kind, JointKind::Child);
    assert_eq!(joints[1].name().as_slice(), b"Arm");
    assert_eq!(joints[1].index(), 1);
    assert_eq!(joints[1].parent_index(), Some(0));
    assert_eq!(joints[1].depth(), 1);
    assert_eq!(joints[1].offset(), offset(1.0, 2.0, 3.0));
    assert_eq!(joints[1].end_site(), Some(offset(4.0, 5.0, 6.0)));
    let channels = joints[1].channels();
    assert_eq!(channels.len(), 2);
    assert_eq!(channels[0].channel_type(), ChannelType::RotationZ);
    assert_eq!(channels[0].motion_index(), 1);
    assert_eq!(channels[1].channel_type(), ChannelType::RotationX);
    assert_eq!(channels[1].motion_index(), 2);
}

/// Pushes a joint with its name, as the text `JOINT name {` does, and opens its block.
fn open_joint(builder: &mut BvhLiteralBuilder, name: &str) {
    builder.push_joint();
    builder.push_joint_name(name);
    builder.current_depth += 1;
}

#[test]
fn a_pushed_joint_stands_below_the_joint_that_encloses_it() {
    let mut builder = BvhLiteralBuilder::default();
    builder.push_root();
    builder.push_joint_name("Hips");
    builder.current_depth += 1;
    open_joint(&mut builder, "Spine");
    open_joint(&mut builder, "Neck");
    open_joint(&mut builder, "Head");
    builder.current_depth -= 3;
    open_joint(&mut builder, "LeftLeg");
    open_joint(&mut builder, "LeftFoot");
    builder.current_depth -= 2;
    open_joint(&mut builder, "RightLeg");
    open_joint(&mut builder, "RightFoot");
    builder.current_depth -= 2;
    builder.current_depth -= 1;

    let bvh = builder.bvh;
    let joints = bvh.joints();
    let parents: Vec<Option<usize>> = joints.iter().map(|j| j.parent_index()).collect();
    assert_eq!(
        parents,
        vec![None, Some(0), Some(1), Some(2), Some(0), Some(4), Some(0), Some(6)]
    );
    let depths: Vec<usize> = joints.iter().map(|j| j.depth()).collect();
    assert_eq!(depths, vec![0, 1, 2, 3, 1, 2, 1, 2]);
    for (position, joint) in joints.iter().enumerate() {
        assert_eq!(joint.index(), position);
        if position > 0 {
            let parent = joint.parent_index().unwrap();
            assert!(parent < position);
            assert_eq!(joint.depth(), joints[parent].depth() + 1);
        }
    }
}

#[test]
fn a_joint_without_a_joint_one_level_higher_stands_below_the_first() {
    let mut builder = BvhLiteralBuilder::default();
    builder.push_root();
    builder.current_depth = 5;
    builder.push_joint();
    assert_eq!(builder.bvh.joints()[1].parent_index(), Some(0));
    assert_eq!(builder.bvh.joints()[1].depth(), 5);
    assert_eq!(builder.bvh.joints()[1].index(), 1);
}

#[test]
fn a_channel_without_a_joint_is_not_counted() {
    let mut builder = BvhLiteralBuilder::default();
    builder.push_joint_name("Nobody");
    builder.push_joint_offset(offset(1.0, 1.0, 1.0), false);
    builder.push_channel(ChannelType::RotationY);
    assert_eq!(builder.current_channel_index, 0);
    assert_eq!(builder.current_index, 0);
    assert!(builder.bvh.joints().is_empty());
    builder.set_num_frames(3);
    assert_eq!(builder.bvh.clips().num_channels(), 0);
    assert!(builder.check_valid_motion());
    builder.push_root();
    builder.push_channel(ChannelType::RotationY);
    assert_eq!(builder.current_channel_index, 1);
    assert_eq!(builder.bvh.joints()[0].channels()[0].motion_index(), 0);
}

#[test]
fn check_valid_motion_counts_values() {
    let mut builder = BvhLiteralBuilder::default();
    builder.push_root();
    builder.push_channel(ChannelType::PositionX);
    builder.push_channel(ChannelType::PositionY);
    builder.set_num_frames(2);
    assert_eq!(builder.num_frames, 2);
    assert_eq!(builder.bvh.clips().num_channels(), 2);
    assert_eq!(builder.bvh.clips().num_frames(), 2);
    assert!(!builder.check_valid_motion());
    builder.push_motion(1.0f32.to_bits());
    builder.push_motion(2.0f32.to_bits());
    builder.push_motion(3.0f32.to_bits());
    assert!(!builder.check_valid_motion());
    builder.push_motion(4.0f32.to_bits());
    assert!(builder.check_valid_motion());
    let frames = builder.bvh.clips().frames();
    assert_eq!(frames.len(), 2);
    assert_eq!(frames[0], vec![1.0f32.to_bits(), 2.0f32.to_bits()]);
    assert_eq!(frames[1], vec![3.0f32.to_bits(), 4.0f32.to_bits()]);
}

#[test]
fn check_valid_motion_rejects_a_product_beyond_the_machine() {
    let mut builder = BvhLiteralBuilder::default();
    builder.push_root();
    builder.push_channel(ChannelType::PositionX);
    builder.push_channel(ChannelType::PositionY);
    builder.set_num_frames(usize::MAX);
    assert!(!builder.check_valid_motion());
}
