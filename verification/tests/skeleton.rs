use bvh_anim::hierarchy::{HierarchyParser, ParseMode};
use bvh_anim::{
    Axis, Bvh, ChannelType, EnumeratedLines, JointKind, LoadError, LoadJointsError, NumberError,
    Offset, ParseChannelError, SourceLine,
};

fn number_error(e: lexical::Error) -> NumberError {
    match *e.kind() {
        lexical::ErrorKind::Overflow => NumberError::Overflow,
        lexical::ErrorKind::InvalidDigit(at) => NumberError::InvalidDigit(at),
        lexical::ErrorKind::Empty => NumberError::Empty,
        _ => NumberError::Other,
    }
}

fn read_f32(field: &[u8]) -> Result<u32, NumberError> {
    lexical::try_parse::<f32, _>(field).map(f32::to_bits).map_err(number_error)
}

fn read_f64(field: &[u8]) -> Result<u64, NumberError> {
    lexical::try_parse::<f64, _>(field).map(f64::to_bits).map_err(number_error)
}

fn line(text: &str) -> SourceLine {
    let content = text.as_bytes().to_vec();
    let axes = SourceLine::axis_fields(&content).iter().map(|f| read_f32(f)).collect();
    let values = SourceLine::value_fields(&content).iter().map(|f| read_f32(f)).collect();
    let frame_time = SourceLine::frame_time_field(&content).map(|f| read_f64(&f));
    SourceLine::new(content, axes, values, frame_time)
}

fn lines(text: &str) -> Vec<SourceLine> {
    text.lines().map(line).collect()
}

fn offset(x: f32, y: f32, z: f32) -> Offset {
    Offset { x: x.to_bits(), y: y.to_bits(), z: z.to_bits() }
}

fn joints_error(text: &str) -> LoadJointsError {
    match Bvh::from_lines(lines(text)) {
        Err(LoadError::Joints(e)) => e,
        Err(LoadError::Motion(e)) => panic!("the skeleton was read, then: {:?}", e),
        Ok(_) => panic!("the document was read"),
    }
}

const ONE_ROOT: &str = "HIERARCHY
ROOT Base
{
    OFFSET 0.0 0.0 0.0
    CHANNELS 6 Xposition Yposition Zposition Zrotation Xrotation Yrotation
}
MOTION
Frames: 1
Frame Time: 0.033333333333
0.0 0.0 0.0 0.0 0.0 0.0
";

const TWO_ARMS: &str = "HIERARCHY
ROOT Base
{
    OFFSET 0.0 0.0 0.0
    CHANNELS 6 Xposition Yposition Zposition Zrotation Xrotation Yrotation
    JOINT Middle1
    {
        OFFSET 0.0 0.0 15.0
        CHANNELS 3 Zrotation Xrotation Yrotation
        End Site
        {
            OFFSET 0.0 0.0 30.0
        }
    }
    JOINT Middle2
    {
        OFFSET 0.0 15.0 0.0
        CHANNELS 3 Zrotation Xrotation Yrotation
        End Site
        {
            OFFSET 0.0 30.0 0.0
        }
    }
}

MOTION
Frames: 1
Frame Time: 0.033333333333
0.0 0.0 0.0 0.0 0.0 0.0 0.0 0.0 0.0 0.0 0.0 0.0
";

const DEEP: &str = "HIERARCHY
ROOT Hips
{
    OFFSET 0 0 0
    CHANNELS 3 Xposition Yposition Zposition
    JOINT Spine
    {
        OFFSET 0 1 0
        CHANNELS 3 Zrotation Xrotation Yrotation
        JOINT Neck
        {
            OFFSET 0 2 0
            CHANNELS 1 Yrotation
            JOINT Head
            {
                OFFSET 0 3 0
                CHANNELS 2 Xrotation Zrotation
                End Site
                {
                    OFFSET 0 4 0
                }
            }
        }
        JOINT Tail
        {
            OFFSET 0 -1 0
        }
    }
    JOINT LeftLeg
    {
        OFFSET 1 0 0
        CHANNELS 3 Zrotation Xrotation Yrotation
        JOINT LeftFoot
        {
            OFFSET 1 -1 0
            CHANNELS 3 Zrotation Xrotation Yrotation
        }
    }
    JOINT RightLeg
    {
        OFFSET -1 0 0
        CHANNELS 3 Zrotation Xrotation Yrotation
        End Site
        {
            OFFSET -1 -1 0
        }
    }
}
MOTION
Frames: 0
Frame Time: 0.5
";

#[test]
fn one_root_without_children() {
    let bvh = Bvh::from_lines(lines(ONE_ROOT)).unwrap();
    let joints = bvh.joints();
    assert_eq!(joints.len(), 1);
    assert_eq!(joints[0].kind, JointKind::Root);
    assert!(joints[0].is_root());
    assert!(!joints[0].is_child());
    assert_eq!(joints[0].name().as_slice(), b"Base");
    assert_eq!(joints[0].index(), 0);
    assert_eq!(joints[0].depth(), 0);
    assert_eq!(joints[0].parent_index(), None);
    assert_eq!(joints[0].offset(), offset(0.0, 0.0, 0.0));
    assert_eq!(joints[0].end_site(), None);
    assert_eq!(joints[0].num_channels(), 6);
    let kinds: Vec<ChannelType> =
        joints[0].channels().iter().map(|c| c.channel_type()).collect();
    assert_eq!(
        kinds,
        vec![
            ChannelType::PositionX,
            ChannelType::PositionY,
            ChannelType::PositionZ,
            ChannelType::RotationZ,
            ChannelType::RotationX,
            ChannelType::RotationY,
        ]
    );
    let frames = bvh.clips().frames();
    assert_eq!(frames.len(), 1);
    assert_eq!(frames[0].len(), 6);
    for value in frames[0].iter() {
        assert_eq!(f32::from_bits(*value), 0.0);
    }
    assert_eq!(bvh.clips().num_frames(), 1);
    assert_eq!(bvh.clips().num_channels(), 6);
}

#[test]
fn two_siblings_with_end_sites() {
    let bvh = Bvh::from_lines(lines(TWO_ARMS)).unwrap();
    let joints = bvh.joints();
    assert_eq!(joints.len(), 5);
    let names: Vec<&[u8]> = joints.iter().map(|j| j.name().as_slice()).collect();
    assert_eq!(names, vec![&b"Base"[..], b"Middle1", b"", b"Middle2", b""]);
    let parents: Vec<Option<usize>> = joints.iter().map(|j| j.parent_index()).collect();
    assert_eq!(parents, vec![None, Some(0), Some(1), Some(0), Some(3)]);
    let depths: Vec<usize> = joints.iter().map(|j| j.depth()).collect();
    assert_eq!(depths, vec![0, 1, 2, 1, 2]);
    let indices: Vec<usize> = joints.iter().map(|j| j.index()).collect();
    assert_eq!(indices, vec![0, 1, 2, 3, 4]);
    let counts: Vec<usize> = joints.iter().map(|j| j.num_channels()).collect();
    assert_eq!(counts, vec![6, 3, 0, 3, 0]);
    assert_eq!(joints[1].offset(), offset(0.0, 0.0, 15.0));
    assert_eq!(joints[1].end_site(), None);
    assert!(!joints[1].has_end_site());
    assert_eq!(joints[2].end_site(), Some(offset(0.0, 0.0, 30.0)));
    assert!(joints[2].has_end_site());
    assert_eq!(joints[2].offset(), offset(0.0, 0.0, 0.0));
    assert_eq!(joints[3].offset(), offset(0.0, 15.0, 0.0));
    assert_eq!(joints[4].end_site(), Some(offset(0.0, 30.0, 0.0)));
    assert_eq!(bvh.clips().num_channels(), 12);
    assert_eq!(bvh.clips().data.len(), 12);
    assert_eq!(bvh.clips().frames().len(), 1);
}

#[test]
fn joints_count_the_declarations() {
    let bvh = Bvh::from_lines(lines(DEEP)).unwrap();
    // One ROOT, seven JOINT, two End Site.
    assert_eq!(bvh.joints().len(), 10);
}

#[test]
fn every_child_stands_one_level_below_its_parent() {
    let bvh = Bvh::from_lines(lines(DEEP)).unwrap();
    let joints = bvh.joints();
    assert_eq!(joints[0].depth(), 0);
    assert_eq!(joints[0].parent_index(), None);
    for (position, joint) in joints.iter().enumerate() {
        assert_eq!(joint.index(), position);
        if position > 0 {
            let parent = joint.parent_index().unwrap();
            assert!(parent < position);
            assert_eq!(joint.depth(), joints[parent].depth() + 1);
            assert_eq!(joint.kind, JointKind::Child);
        }
    }
    let parents: Vec<Option<usize>> = joints.iter().map(|j| j.parent_index()).collect();
    assert_eq!(
        parents,
        vec![None, Some(0), Some(1), Some(2), Some(3), Some(1), Some(0), Some(6), Some(0), Some(8)]
    );
    let depths: Vec<usize> = joints.iter().map(|j| j.depth()).collect();
    assert_eq!(depths, vec![0, 1, 2, 3, 4, 2, 1, 2, 1, 2]);
}

#[test]
fn channels_number_the_columns() {
    let bvh = Bvh::from_lines(lines(DEEP)).unwrap();
    let mut next = 0;
    for joint in bvh.joints().iter() {
        for channel in joint.channels().iter() {
            assert_eq!(channel.motion_index(), next);
            next += 1;
        }
    }
    assert_eq!(next, 18);
    assert_eq!(bvh.clips().num_channels(), 18);
}

#[test]
fn two_channel_lines_of_one_joint_add_up() {
    let text = "HIERARCHY
ROOT Base
{
    CHANNELS 2 Xposition Yposition
    CHANNELS 1 Zposition
    JOINT Arm
    {
        CHANNELS 1 Xrotation
    }
}
MOTION
Frames: 0
Frame Time: 1
";
    let bvh = Bvh::from_lines(lines(text)).unwrap();
    let joints = bvh.joints();
    let columns: Vec<usize> = joints[0].channels().iter().map(|c| c.motion_index()).collect();
    assert_eq!(columns, vec![0, 1, 2]);
    let columns: Vec<usize> = joints[1].channels().iter().map(|c| c.motion_index()).collect();
    assert_eq!(columns, vec![3]);
}

#[test]
fn parsing_twice_gives_the_same_document() {
    let first = Bvh::from_lines(lines(TWO_ARMS)).unwrap();
    let second = Bvh::from_lines(lines(TWO_ARMS)).unwrap();
    assert_eq!(first.joints().len(), second.joints().len());
    for (a, b) in first.joints().iter().zip(second.joints().iter()) {
        assert_eq!(a.kind, b.kind);
        assert_eq!(a.name(), b.name());
        assert_eq!(a.offset(), b.offset());
        assert_eq!(a.end_site(), b.end_site());
        assert_eq!(a.channels(), b.channels());
        assert_eq!(a.private, b.private);
    }
    assert_eq!(first.clips().data, second.clips().data);
    assert_eq!(first.clips().frame_time(), second.clips().frame_time());
    assert_eq!(first.clips().num_frames(), second.clips().num_frames());
    assert_eq!(first.clips().num_channels(), second.clips().num_channels());
}

#[test]
fn fields_are_parted_by_tabs_and_colons() {
    let text = "  HIERARCHY  \n\tROOT:Base\n{\nOFFSET\t1.5\t-2\t3e2\nCHANNELS:1:Xposition\n}\nMOTION\nFrames 0\nFrame Time: 1\n";
    let bvh = Bvh::from_lines(lines(text)).unwrap();
    assert_eq!(bvh.joints().len(), 1);
    assert_eq!(bvh.joints()[0].name().as_slice(), b"Base");
    assert_eq!(bvh.joints()[0].offset(), offset(1.5, -2.0, 300.0));
    assert_eq!(bvh.joints()[0].num_channels(), 1);
}

#[test]
fn unknown_lines_are_passed_over() {
    let text = "# a comment
HIERARCHY

ROOT Base
// another
{
    OFFSET 0 0 0 12 13
    Whatever 1 2 3
}
MOTION
Frames: 0
Frame Time: 1
";
    let bvh = Bvh::from_lines(lines(text)).unwrap();
    assert_eq!(bvh.joints().len(), 1);
}

#[test]
fn the_skeleton_ends_at_the_brace_of_the_root() {
    let mut supplier = EnumeratedLines::new(lines(TWO_ARMS));
    let mut bvh = Bvh::new();
    bvh.read_joints(&mut supplier).unwrap();
    assert_eq!(supplier.position, 24);
    assert_eq!(supplier.last_enumerator(), Some(24));
    assert_eq!(bvh.joints().len(), 5);
    assert_eq!(bvh.clips().num_channels(), 12);
    bvh.read_motion(&mut supplier).unwrap();
    assert_eq!(supplier.position, 29);
}

#[test]
fn a_channel_list_shorter_than_its_count_is_rejected() {
    let text = "HIERARCHY
ROOT Base
{
    OFFSET 0 0 0
    CHANNELS 3 Zrotation Xrotation
}
";
    assert_eq!(
        joints_error(text),
        LoadJointsError::ChannelCountMismatch { expected: 3, actual: 2, line: 5 }
    );
}

#[test]
fn a_channel_list_longer_than_its_count_is_rejected() {
    let text = "HIERARCHY\nROOT Base\n{\nCHANNELS 1 Zrotation Xrotation\n}\n";
    assert_eq!(
        joints_error(text),
        LoadJointsError::ChannelCountMismatch { expected: 1, actual: 2, line: 4 }
    );
}

#[test]
fn an_unknown_channel_is_rejected() {
    let text = "HIERARCHY\nROOT Base\n{\nCHANNELS 2 Zrotation Wrotation\n}\n";
    assert_eq!(
        joints_error(text),
        LoadJointsError::ParseChannelError { error: ParseChannelError, line: 4 }
    );
}

#[test]
fn a_channel_count_that_is_no_number_is_rejected() {
    let text = "HIERARCHY\nROOT Base\n{\nCHANNELS x3 Zrotation\n}\n";
    assert_eq!(
        joints_error(text),
        LoadJointsError::ParseNumChannelsError {
            error: Some(NumberError::InvalidDigit(0)),
            line: 4
        }
    );
    let text = "HIERARCHY\nROOT Base\n{\nCHANNELS\n}\n";
    assert_eq!(
        joints_error(text),
        LoadJointsError::ParseNumChannelsError { error: None, line: 4 }
    );
}

#[test]
fn a_malformed_axis_is_named() {
    let text = "HIERARCHY\nROOT Base\n{\nOFFSET 1.0 oops 3.0\n}\n";
    assert_eq!(
        joints_error(text),
        LoadJointsError::ParseOffsetError {
            parse_float_error: NumberError::InvalidDigit(0),
            axis: Axis::Y,
            line: 4
        }
    );
    let text = "HIERARCHY\nROOT Base\n{\nOFFSET 1.0x 2 3.0\n}\n";
    assert_eq!(
        joints_error(text),
        LoadJointsError::ParseOffsetError {
            parse_float_error: NumberError::InvalidDigit(3),
            axis: Axis::X,
            line: 4
        }
    );
    let text = "HIERARCHY\nROOT Base\n{\nOFFSET 1.0 2 z\n}\n";
    assert_eq!(
        joints_error(text),
        LoadJointsError::ParseOffsetError {
            parse_float_error: NumberError::InvalidDigit(0),
            axis: Axis::Z,
            line: 4
        }
    );
}

#[test]
fn a_missing_axis_is_named() {
    let text = "HIERARCHY\nROOT Base\n{\nOFFSET\n}\n";
    assert_eq!(joints_error(text), LoadJointsError::MissingOffsetAxis { axis: Axis::X, line: 4 });
    let text = "HIERARCHY\nROOT Base\n{\nOFFSET 1\n}\n";
    assert_eq!(joints_error(text), LoadJointsError::MissingOffsetAxis { axis: Axis::Y, line: 4 });
    let text = "HIERARCHY\nROOT Base\n{\nOFFSET 1 2\n}\n";
    assert_eq!(joints_error(text), LoadJointsError::MissingOffsetAxis { axis: Axis::Z, line: 4 });
}

#[test]
fn an_axis_without_a_reading_is_reported_as_not_read() {
    let unread = SourceLine::new(b"OFFSET 1 2 3".to_vec(), vec![Ok(1), Ok(2)], vec![], None);
    let document = vec![line("HIERARCHY"), line("ROOT Base"), line("{"), unread];
    assert_eq!(
        Bvh::from_lines(document).err(),
        Some(LoadError::Joints(LoadJointsError::ParseOffsetError {
            parse_float_error: NumberError::NotRead,
            axis: Axis::Z,
            line: 4
        }))
    );
}

#[test]
fn sections_outside_a_joint_are_rejected() {
    assert_eq!(
        joints_error("OFFSET 1 2 3\n"),
        LoadJointsError::UnexpectedOffsetSection { line: 1 }
    );
    assert_eq!(
        joints_error("\nCHANNELS 1 Xrotation\n"),
        LoadJointsError::UnexpectedChannelsSection { line: 2 }
    );
    assert_eq!(
        joints_error("HIERARCHY\nROOT Base\nOFFSET 1 2 3\n"),
        LoadJointsError::UnexpectedOffsetSection { line: 3 }
    );
    let text = "HIERARCHY\nROOT Base\n{\nEnd Site\n{\nCHANNELS 1 Xrotation\n}\n}\n";
    assert_eq!(joints_error(text), LoadJointsError::UnexpectedChannelsSection { line: 6 });
    let text = "HIERARCHY\nROOT Base\n{\nEnd Site\n{\n}\nOFFSET 1 2 3\n}\n";
    assert_eq!(joints_error(text), LoadJointsError::UnexpectedOffsetSection { line: 7 });
}

#[test]
fn a_skeleton_that_does_not_start_with_the_keyword_is_rejected() {
    assert_eq!(joints_error("ROOT Base\n{\n}\n"), LoadJointsError::MissingHierarchy { line: 1 });
    assert_eq!(joints_error("\n{\n}\n"), LoadJointsError::MissingHierarchy { line: 2 });
    assert_eq!(joints_error("}\n"), LoadJointsError::MissingHierarchy { line: 1 });
    assert_eq!(joints_error("JOINT Arm\n"), LoadJointsError::MissingHierarchy { line: 1 });
    assert_eq!(joints_error("End Site\n"), LoadJointsError::MissingHierarchy { line: 1 });
}

#[test]
fn a_second_hierarchy_is_rejected() {
    assert_eq!(
        joints_error("HIERARCHY\nHIERARCHY\n"),
        LoadJointsError::UnexpectedHierarchy { line: 2 }
    );
    assert_eq!(
        joints_error("HIERARCHY\nROOT Base\n{\nHIERARCHY\n"),
        LoadJointsError::UnexpectedHierarchy { line: 4 }
    );
}

#[test]
fn a_misplaced_or_unnamed_root_is_rejected() {
    assert_eq!(
        joints_error("HIERARCHY\nROOT\n{\n}\n"),
        LoadJointsError::MissingRootName { line: 2 }
    );
    assert_eq!(
        joints_error("HIERARCHY\nROOT Base\nROOT Other\n"),
        LoadJointsError::UnexpectedRoot { line: 3 }
    );
    assert_eq!(
        joints_error("HIERARCHY\nROOT Base\n{\nROOT Other\n"),
        LoadJointsError::UnexpectedRoot { line: 4 }
    );
}

#[test]
fn a_misplaced_or_unnamed_joint_is_rejected() {
    assert_eq!(
        joints_error("HIERARCHY\nJOINT Arm\n"),
        LoadJointsError::UnexpectedJoint { line: 2 }
    );
    assert_eq!(
        joints_error("HIERARCHY\nROOT Base\nJOINT Arm\n"),
        LoadJointsError::UnexpectedJoint { line: 3 }
    );
    assert_eq!(
        joints_error("HIERARCHY\nROOT Base\n{\nJOINT\n"),
        LoadJointsError::MissingJointName { line: 4 }
    );
    assert_eq!(
        joints_error("HIERARCHY\nROOT Base\n{\nEnd Site\n{\nJOINT Arm\n"),
        LoadJointsError::UnexpectedJoint { line: 6 }
    );
}

#[test]
fn a_misplaced_end_site_is_rejected() {
    assert_eq!(
        joints_error("HIERARCHY\nROOT Base\n{\nEnd Effector\n"),
        LoadJointsError::UnexpectedEndSite { line: 4 }
    );
    assert_eq!(
        joints_error("HIERARCHY\nROOT Base\n{\nEnd\n"),
        LoadJointsError::UnexpectedEndSite { line: 4 }
    );
    assert_eq!(
        joints_error("HIERARCHY\nEnd Site\n"),
        LoadJointsError::UnexpectedEndSite { line: 2 }
    );
    assert_eq!(
        joints_error("HIERARCHY\nROOT Base\n{\nEnd Site\n{\nEnd Site\n"),
        LoadJointsError::UnexpectedEndSite { line: 6 }
    );
}

#[test]
fn a_misplaced_brace_is_rejected() {
    assert_eq!(joints_error("HIERARCHY\n{\n"), LoadJointsError::UnexpectedBrace { line: 2 });
    assert_eq!(joints_error("HIERARCHY\n}\n"), LoadJointsError::UnexpectedBrace { line: 2 });
    assert_eq!(
        joints_error("HIERARCHY\nROOT Base\n}\n"),
        LoadJointsError::UnexpectedBrace { line: 3 }
    );
    assert_eq!(
        joints_error("HIERARCHY\nROOT Base\n{\n{\n"),
        LoadJointsError::UnexpectedBrace { line: 4 }
    );
}

#[test]
fn a_root_that_is_never_closed_is_missing() {
    assert_eq!(joints_error(""), LoadJointsError::MissingRoot);
    assert_eq!(joints_error("HIERARCHY\n"), LoadJointsError::MissingRoot);
    assert_eq!(joints_error("HIERARCHY\nROOT Base\n{\nOFFSET 0 0 0\n"), LoadJointsError::MissingRoot);
    assert_eq!(
        joints_error("HIERARCHY\nROOT Base\n{\nJOINT Arm\n{\n}\n"),
        LoadJointsError::MissingRoot
    );
    assert_eq!(joints_error("nothing\nof\nthe kind\n"), LoadJointsError::MissingRoot);
}

#[test]
fn an_unreadable_line_is_reported_where_it_stands() {
    let document = vec![line("HIERARCHY"), line("ROOT Base"), SourceLine::unreadable(), line("{")];
    assert_eq!(
        Bvh::from_lines(document).err(),
        Some(LoadError::Joints(LoadJointsError::UnreadableLine { line: 3 }))
    );
}

#[test]
fn a_failed_read_leaves_the_document_as_it_was() {
    let mut bvh = Bvh::from_lines(lines(ONE_ROOT)).unwrap();
    let mut supplier = EnumeratedLines::new(lines("HIERARCHY\nROOT Base\n"));
    assert_eq!(bvh.read_joints(&mut supplier), Err(LoadJointsError::MissingRoot));
    assert_eq!(bvh.joints().len(), 1);
    assert_eq!(bvh.clips().num_channels(), 6);
}

#[test]
fn the_parser_is_fed_line_by_line() {
    let mut parser = HierarchyParser::new();
    assert_eq!(parser.mode, ParseMode::NotStarted);
    parser.apply_line(1, &line("HIERARCHY")).unwrap();
    assert_eq!(parser.mode, ParseMode::ExpectRoot);
    parser.apply_line(2, &line("ROOT Base")).unwrap();
    assert_eq!(parser.mode, ParseMode::ExpectBrace);
    assert!(parser.has_current);
    assert!(parser.joints.is_empty());
    parser.apply_line(3, &line("{")).unwrap();
    assert_eq!(parser.mode, ParseMode::InBlock);
    assert_eq!(parser.depth, 1);
    parser.apply_line(4, &line("CHANNELS 2 Xposition Yrotation")).unwrap();
    assert_eq!(parser.num_channels, 2);
    parser.apply_line(5, &line("End Site")).unwrap();
    assert_eq!(parser.joints.len(), 1);
    assert!(parser.in_end_site);
    parser.apply_line(6, &line("{")).unwrap();
    assert_eq!(parser.depth, 2);
    parser.apply_line(7, &line("OFFSET 1 2 3")).unwrap();
    parser.apply_line(8, &line("}")).unwrap();
    assert_eq!(parser.joints.len(), 2);
    assert!(!parser.has_current);
    assert!(!parser.in_end_site);
    assert!(!parser.is_finished());
    parser.apply_line(9, &line("}")).unwrap();
    assert!(parser.is_finished());
    assert_eq!(parser.depth, 0);
    assert_eq!(parser.joints[1].end_site(), Some(offset(1.0, 2.0, 3.0)));
    assert_eq!(parser.joints[1].parent_index(), Some(0));
    assert_eq!(parser.joints[1].depth(), 1);
}

#[test]
fn the_channel_count_is_taken_as_given() {
    let mut parser = HierarchyParser::new();
    parser.apply_line(1, &line("HIERARCHY")).unwrap();
    parser.apply_line(2, &line("ROOT Base")).unwrap();
    parser.apply_line(3, &line("{")).unwrap();
    let fields = vec![b"CHANNELS".to_vec(), b"ignored".to_vec(), b"Xrotation".to_vec()];
    assert_eq!(
        parser.on_channels(4, Some(Err(NumberError::Overflow)), &fields),
        Err(LoadJointsError::ParseNumChannelsError { error: Some(NumberError::Overflow), line: 4 })
    );
    assert_eq!(
        parser.on_channels(4, Some(Ok(2)), &fields),
        Err(LoadJointsError::ChannelCountMismatch { expected: 2, actual: 1, line: 4 })
    );
    assert_eq!(parser.on_channels(4, Some(Ok(1)), &fields), Ok(()));
    assert_eq!(parser.num_channels, 1);
    assert_eq!(parser.current.channels()[0].channel_type(), ChannelType::RotationX);
}

#[test]
fn more_channels_than_a_list_holds_are_rejected() {
    let mut parser = HierarchyParser::new();
    parser.apply_line(1, &line("HIERARCHY")).unwrap();
    parser.apply_line(2, &line("ROOT Base")).unwrap();
    parser.apply_line(3, &line("{")).unwrap();
    parser.num_channels = bvh_anim::channel::MAX_CHANNELS - 1;
    assert_eq!(
        parser.apply_line(4, &line("CHANNELS 2 Xrotation Yrotation")),
        Err(LoadJointsError::TooManyChannels { line: 4 })
    );
    assert_eq!(parser.apply_line(5, &line("CHANNELS 1 Xrotation")), Ok(()));
    assert_eq!(parser.num_channels, bvh_anim::channel::MAX_CHANNELS);
    assert_eq!(
        parser.current.channels()[0].motion_index(),
        bvh_anim::channel::MAX_CHANNELS - 1
    );
    assert_eq!(parser.apply_line(6, &line("CHANNELS 0")), Ok(()));
    assert_eq!(
        parser.apply_line(7, &line("CHANNELS 1 Xrotation")),
        Err(LoadJointsError::TooManyChannels { line: 7 })
    );
}

#[test]
fn braces_beyond_the_counter_are_rejected() {
    let mut parser = HierarchyParser::new();
    parser.apply_line(1, &line("HIERARCHY")).unwrap();
    parser.apply_line(2, &line("ROOT Base")).unwrap();
    parser.depth = usize::MAX - 1;
    assert_eq!(
        parser.apply_line(3, &line("{")),
        Err(LoadJointsError::UnexpectedBrace { line: 3 })
    );
    parser.depth = usize::MAX - 2;
    assert_eq!(parser.apply_line(3, &line("{")), Ok(()));
    assert_eq!(parser.depth, usize::MAX - 1);
}

#[test]
fn the_parent_is_the_nearest_joint_above() {
    let bvh = Bvh::from_lines(lines(DEEP)).unwrap();
    let joints = bvh.joints();
    for position in 1..joints.len() {
        assert!(joints[position].depth() <= joints[position - 1].depth() + 1);
        let nearest = (0..position)
            .rev()
            .find(|before| joints[*before].depth() < joints[position].depth())
            .unwrap();
        assert_eq!(joints[position].parent_index(), Some(nearest));
    }
}
