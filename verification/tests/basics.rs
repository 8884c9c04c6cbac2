use bvh_anim::bytes::{bytes_eq, copy_bytes, is_keyword};
use bvh_anim::hierarchy::{classify, LineKind};
use bvh_anim::joint::get_parent_index;
use bvh_anim::tokens::{is_blank, is_field_separator, split_keyword_fields, split_value_fields};
use bvh_anim::{Channel, ChannelType, JointData, JointKind, Offset, ParseChannelError};

fn fields(words: &[&str]) -> Vec<Vec<u8>> {
    words.iter().map(|w| w.as_bytes().to_vec()).collect()
}

fn child(index: usize, depth: usize) -> JointData {
    let mut joint = JointData::empty_child();
    joint.private.self_index = index;
    joint.private.depth = depth;
    joint
}

#[test]
fn channel_keywords() {
    assert_eq!(ChannelType::from_bytes(b"Xposition"), Ok(ChannelType::PositionX));
    assert_eq!(ChannelType::from_bytes(b"Yposition"), Ok(ChannelType::PositionY));
    assert_eq!(ChannelType::from_bytes(b"Zposition"), Ok(ChannelType::PositionZ));
    assert_eq!(ChannelType::from_bytes(b"Xrotation"), Ok(ChannelType::RotationX));
    assert_eq!(ChannelType::from_bytes(b"Yrotation"), Ok(ChannelType::RotationY));
    assert_eq!(ChannelType::from_bytes(b"Zrotation"), Ok(ChannelType::RotationZ));
    assert_eq!(ChannelType::from_bytes(b"xrotation"), Err(ParseChannelError));
    assert_eq!(ChannelType::from_bytes(b"Xrotation "), Err(ParseChannelError));
    assert_eq!(ChannelType::from_bytes(b""), Err(ParseChannelError));
}

#[test]
fn rotations_and_positions() {
    assert!(ChannelType::RotationX.is_rotation());
    assert!(ChannelType::RotationY.is_rotation());
    assert!(ChannelType::RotationZ.is_rotation());
    assert!(!ChannelType::PositionX.is_rotation());
    assert!(ChannelType::PositionX.is_position());
    assert!(ChannelType::PositionY.is_position());
    assert!(ChannelType::PositionZ.is_position());
    assert!(!ChannelType::RotationZ.is_position());
}

#[test]
fn a_channel_holds_its_kind_and_column() {
    let channel = Channel::new(ChannelType::RotationY, 17);
    assert_eq!(channel.channel_type(), ChannelType::RotationY);
    assert_eq!(channel.motion_index(), 17);
    assert_eq!(channel, Channel { kind: ChannelType::RotationY, column_index: 17 });
}

#[test]
fn byte_strings_are_compared_and_copied() {
    assert!(bytes_eq(b"", b""));
    assert!(bytes_eq(b"abc", b"abc"));
    assert!(!bytes_eq(b"abc", b"abd"));
    assert!(!bytes_eq(b"abc", b"ab"));
    assert!(!bytes_eq(b"ab", b"abc"));
    assert!(is_keyword(b"ROOT", "ROOT"));
    assert!(!is_keyword(b"ROOT ", "ROOT"));
    assert!(!is_keyword(b"root", "ROOT"));
    assert_eq!(copy_bytes(b"Hips"), b"Hips".to_vec());
    assert_eq!(copy_bytes(b""), Vec::<u8>::new());
}

#[test]
fn separators_are_ascii_whitespace_and_the_colon() {
    for c in [' ', '\t', '\n', '\r', '\x0C', ':'].iter() {
        assert!(is_field_separator(*c));
    }
    for c in ['a', '0', '{', '}', ';', '.', '-', '\x0B', '\u{a0}', '\u{2003}'].iter() {
        assert!(!is_field_separator(*c));
    }
    for c in (0u8..128).map(char::from) {
        assert_eq!(is_field_separator(c), c.is_ascii_whitespace() || c == ':');
    }
}

#[test]
fn lines_are_split_into_fields() {
    assert_eq!(split_keyword_fields(b"  ROOT \t Hips  "), fields(&["ROOT", "Hips"]));
    assert_eq!(split_keyword_fields(b"Frames:\t12"), fields(&["Frames", "12"]));
    assert_eq!(split_keyword_fields(b"::a::b c:"), fields(&["a", "b", "c"]));
    assert!(split_keyword_fields(b" \t ").is_empty());
    assert!(split_keyword_fields(b"").is_empty());
    assert_eq!(split_value_fields(b" 1.5\t-2 :3 "), fields(&["1.5", "-2", ":3"]));
    assert_eq!(split_value_fields("1\u{2003}2".as_bytes()), fields(&["1", "2"]));
    assert_eq!(split_keyword_fields("1\u{2003}2".as_bytes()), fields(&["1\u{2003}2"]));
    assert!(split_value_fields(b"").is_empty());
}

#[test]
fn blank_lines_hold_whitespace_only() {
    assert!(is_blank(b""));
    assert!(is_blank(b"  \t\r"));
    assert!(is_blank("\u{2003}".as_bytes()));
    assert!(!is_blank(b" . "));
    assert!(!is_blank(b":"));
}

#[test]
fn lines_are_told_apart_by_their_first_field() {
    assert_eq!(classify(&fields(&[])), LineKind::Other);
    assert_eq!(classify(&fields(&["HIERARCHY"])), LineKind::Hierarchy);
    assert_eq!(classify(&fields(&["ROOT", "Hips"])), LineKind::Root);
    assert_eq!(classify(&fields(&["{"])), LineKind::Open);
    assert_eq!(classify(&fields(&["}"])), LineKind::Close);
    assert_eq!(classify(&fields(&["End", "Site"])), LineKind::End);
    assert_eq!(classify(&fields(&["JOINT", "Arm"])), LineKind::Joint);
    assert_eq!(classify(&fields(&["OFFSET", "0", "0", "0"])), LineKind::Offset);
    assert_eq!(classify(&fields(&["CHANNELS", "0"])), LineKind::Channels);
    assert_eq!(classify(&fields(&["MOTION"])), LineKind::Other);
    assert_eq!(classify(&fields(&["Root", "Hips"])), LineKind::Other);
}

#[test]
fn the_parent_is_the_last_joint_two_levels_up() {
    let joints = vec![
        JointData::empty_root(),
        child(1, 1),
        child(2, 2),
        child(3, 1),
        child(4, 2),
        child(5, 3),
        child(6, 1),
    ];
    // A joint of level 1 is closed while 2 braces are open around its contents.
    assert_eq!(get_parent_index(&joints, 2), 0);
    assert_eq!(get_parent_index(&joints, 3), 6);
    assert_eq!(get_parent_index(&joints, 4), 4);
    assert_eq!(get_parent_index(&joints, 5), 5);
    // No joint of the level: the root.
    assert_eq!(get_parent_index(&joints, 6), 0);
    assert_eq!(get_parent_index(&joints, usize::MAX), 0);
    // Fewer than two levels: level 0.
    assert_eq!(get_parent_index(&joints, 1), 0);
    assert_eq!(get_parent_index(&joints, 0), 0);
    assert_eq!(get_parent_index(&joints[..3].iter().map(|j| child(j.index(), j.depth())).collect(), 3), 1);
    assert_eq!(get_parent_index(&Vec::new(), 2), 0);
}

#[test]
fn a_joint_is_told_its_name_and_offsets() {
    let mut joint = JointData::empty_child();
    assert_eq!(joint.kind, JointKind::Child);
    assert!(joint.is_child());
    assert!(joint.name().is_empty());
    assert_eq!(joint.offset(), Offset::zero());
    assert_eq!(joint.end_site(), None);
    assert_eq!(joint.num_channels(), 0);
    assert!(joint.channels().is_empty());
    joint.set_name(b"Arm");
    assert_eq!(joint.name().as_slice(), b"Arm");
    joint.set_offset(Offset { x: 1, y: 2, z: 3 }, false);
    assert_eq!(joint.offset(), Offset { x: 1, y: 2, z: 3 });
    assert_eq!(joint.end_site(), None);
    joint.set_offset(Offset { x: 4, y: 5, z: 6 }, true);
    assert_eq!(joint.offset(), Offset { x: 1, y: 2, z: 3 });
    assert_eq!(joint.end_site(), Some(Offset { x: 4, y: 5, z: 6 }));
    assert!(joint.has_end_site());
    assert_eq!(joint.parent_index(), Some(0));
    let root = JointData::empty_root();
    assert_eq!(root.kind, JointKind::Root);
    assert_eq!(root.parent_index(), None);
    assert_eq!(root.index(), 0);
    assert_eq!(root.depth(), 0);
}
