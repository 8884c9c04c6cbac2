//! What holds of every skeleton that the parser accepts: the joints form a
//! tree, and their channels number the columns of the motion matrix.

use vstd::prelude::*;
use crate::channel::{Channel, MAX_CHANNELS};
use crate::errors::NumberError;
use crate::hierarchy::{
    channel_fields, line_kind, numbered_channels, run, LineKind, ParseMode, ParserModel,
};
use crate::joint::{parent_lookup, JointKind, JointModel};
use crate::lines::LineModel;
use crate::tokens::keyword_fields;

verus! {

/// The joint at position `k` records that position, and is the root if and only if it is the first.
pub open spec fn position_ok(joints: Seq<JointModel>, k: int) -> bool {
    joints[k].self_index == k && (joints[k].kind == JointKind::Root <==> k == 0)
}

/// The joint at position `k` has its parent before it and stands one level below it.
pub open spec fn child_ok(joints: Seq<JointModel>, k: int) -> bool {
    joints[k].parent_index < k && joints[k].depth == joints[joints[k].parent_index as int].depth
        + 1
}

/// Each joint records the position at which it stands, and the first joint is
/// the root and the only one.
pub open spec fn indexed(joints: Seq<JointModel>) -> bool {
    forall|k: int| 0 <= k < joints.len() ==> #[trigger] position_ok(joints, k)
}

/// The joints form a tree: the root stands at level 0, and every other joint
/// has its parent before it and stands one level below it.
pub open spec fn is_tree(joints: Seq<JointModel>) -> bool {
    &&& indexed(joints)
    &&& joints.len() > 0 ==> joints[0].depth == 0 && joints[0].parent_index == 0
    &&& forall|k: int| 1 <= k < joints.len() ==> #[trigger] child_ok(joints, k)
}

/// The channels of all the joints, joint after joint.
pub open spec fn channels_of(joints: Seq<JointModel>) -> Seq<Channel>
    decreases joints.len(),
{
    if joints.len() == 0 {
        Seq::empty()
    } else {
        channels_of(joints.drop_last()) + joints.last().channels
    }
}

/// Each channel holds the column that is its position in the sequence.
pub open spec fn columns_in_order(channels: Seq<Channel>) -> bool {
    forall|i: int| 0 <= i < channels.len() ==> (#[trigger] channels[i]).column_index == i
}

/// Whether some joint of the sequence stands at the given level.
pub open spec fn level_covered(joints: Seq<JointModel>, level: int) -> bool {
    exists|k: int| 0 <= k < joints.len() && (#[trigger] joints[k]).depth == level
}

/// The channels declared so far: those of the complete joints, then those of the current one.
pub open spec fn declared_channels(s: ParserModel) -> Seq<Channel> {
    if s.has_current {
        channels_of(s.joints) + s.current.channels
    } else {
        channels_of(s.joints)
    }
}

/// The number of joints declared so far.
pub open spec fn declared_joints(s: ParserModel) -> nat {
    if s.has_current {
        s.joints.len() + 1
    } else {
        s.joints.len()
    }
}

/// Whether a level is taken by a complete joint or by the current one.
pub open spec fn level_taken(s: ParserModel, level: int) -> bool {
    level_covered(s.joints, level) || (s.has_current && s.current.depth == level)
}

/// What holds of the parser's state after any number of lines.
pub open spec fn consistent(s: ParserModel) -> bool {
    &&& s.wf()
    &&& is_tree(s.joints)
    &&& columns_in_order(declared_channels(s))
    &&& declared_channels(s).len() == s.num_channels
    &&& s.num_channels <= MAX_CHANNELS
    &&& s.has_current ==> {
        &&& s.current.kind == JointKind::Root <==> s.joints.len() == 0
        &&& s.current.kind == JointKind::Root ==> s.current.depth == 0
        &&& s.current.kind == JointKind::Child ==> s.current.depth >= 1 && level_covered(
            s.joints,
            s.current.depth - 1,
        )
    }
    &&& match s.mode {
        ParseMode::NotStarted | ParseMode::ExpectRoot => s.joints.len() == 0 && !s.has_current
            && s.depth == 0,
        ParseMode::ExpectBrace => s.has_current && s.current.depth == s.depth && forall|d: int|
            0 <= d < s.depth ==> level_covered(s.joints, d),
        ParseMode::InBlock => s.depth >= 1 && forall|d: int|
            0 <= d < s.depth ==> level_taken(s, d),
        ParseMode::Finished => !s.has_current && s.depth == 0,
    }
}

/// The reverse scan finds the last joint of the level it looks for, if there is one.
pub proof fn lemma_parent_lookup(joints: Seq<JointModel>, for_depth: usize)
    requires
        indexed(joints),
        for_depth >= 2,
        level_covered(joints, for_depth - 2),
    ensures
        parent_lookup(joints, for_depth) < joints.len(),
        joints[parent_lookup(joints, for_depth) as int].depth == for_depth - 2,
        forall|m: int|
            parent_lookup(joints, for_depth) < m < joints.len() ==> (#[trigger] joints[m]).depth
                != for_depth - 2,
    decreases joints.len(),
{
    let k = choose|k: int| 0 <= k < joints.len() && (#[trigger] joints[k]).depth == for_depth - 2;
    if joints.last().depth == for_depth - 2 {
        assert(position_ok(joints, joints.len() - 1));
    } else {
        let rest = joints.drop_last();
        assert(rest[k] == joints[k]);
        assert forall|i: int| 0 <= i < rest.len() implies #[trigger] position_ok(rest, i) by {
            assert(position_ok(joints, i));
        }
        lemma_parent_lookup(rest, for_depth);
        assert forall|m: int| parent_lookup(joints, for_depth) < m < joints.len() implies (
        #[trigger] joints[m]).depth != for_depth - 2 by {
            if m < rest.len() {
                assert(rest[m] == joints[m]);
            }
        }
    }
}

/// The channels of a sequence with one more joint.
pub proof fn lemma_channels_of_push(joints: Seq<JointModel>, joint: JointModel)
    ensures
        channels_of(joints.push(joint)) == channels_of(joints) + joint.channels,
{
    assert(joints.push(joint).drop_last() =~= joints);
}

/// A level that is covered stays covered when a joint is added.
pub proof fn lemma_level_covered_push(joints: Seq<JointModel>, joint: JointModel, level: int)
    requires
        level_covered(joints, level) || joint.depth == level,
    ensures
        level_covered(joints.push(joint), level),
{
    let more = joints.push(joint);
    if level_covered(joints, level) {
        let k = choose|k: int| 0 <= k < joints.len() && (#[trigger] joints[k]).depth == level;
        assert(more[k].depth == level);
    } else {
        assert(more[joints.len() as int].depth == level);
    }
}

/// A tree stays a tree when a joint is added that records the next position
/// and, unless it is the first, a parent one level above it.
pub proof fn lemma_tree_push(joints: Seq<JointModel>, joint: JointModel)
    requires
        is_tree(joints),
        joint.self_index == joints.len(),
        joint.kind == JointKind::Root <==> joints.len() == 0,
        joints.len() == 0 ==> joint.depth == 0 && joint.parent_index == 0,
        joints.len() > 0 ==> joint.parent_index < joints.len() && joint.depth
            == joints[joint.parent_index as int].depth + 1,
    ensures
        is_tree(joints.push(joint)),
{
    let more = joints.push(joint);
    assert forall|k: int| 0 <= k < more.len() implies #[trigger] position_ok(more, k) by {
        if k < joints.len() {
            assert(position_ok(joints, k));
        }
    }
    assert forall|k: int| 1 <= k < more.len() implies #[trigger] child_ok(more, k) by {
        if k < joints.len() {
            assert(child_ok(joints, k));
        }
    }
}

/// Completing the current joint keeps the tree, the channels and the levels.
pub proof fn lemma_append_current(s: ParserModel)
    requires
        consistent(s),
        declared_joints(s) <= usize::MAX,
    ensures
        is_tree(s.append_current().joints),
        declared_channels(s.append_current()) == declared_channels(s),
        declared_joints(s.append_current()) == declared_joints(s),
        forall|d: int| level_taken(s, d) ==> level_covered(s.append_current().joints, d),
        s.has_current ==> s.append_current().joints.len() > 0,
{
    let t = s.append_current();
    if s.has_current {
        let joint = s.finalized();
        lemma_channels_of_push(s.joints, joint);
        if s.current.kind == JointKind::Child {
            lemma_parent_lookup(s.joints, (s.current.depth + 1) as usize);
        }
        lemma_tree_push(s.joints, joint);
        assert forall|d: int| level_taken(s, d) implies level_covered(t.joints, d) by {
            lemma_level_covered_push(s.joints, joint, d);
        }
    } else {
        assert forall|d: int| level_taken(s, d) implies level_covered(t.joints, d) by {}
    }
}

/// Whether a line of this kind declares a joint or an end site.
pub open spec fn declares(kind: LineKind) -> bool {
    kind == LineKind::Root || kind == LineKind::Joint || kind == LineKind::End
}

proof fn lemma_on_open(s: ParserModel, line: usize)
    requires
        consistent(s),
        s.on_open(line) is Ok,
    ensures
        consistent(s.on_open(line)->Ok_0),
        declared_joints(s.on_open(line)->Ok_0) == declared_joints(s),
{
    let t = s.on_open(line)->Ok_0;
    assert forall|d: int| 0 <= d < t.depth implies level_taken(t, d) by {
        if d < s.depth {
            assert(level_covered(s.joints, d));
        }
    }
}

proof fn lemma_on_close(s: ParserModel, line: usize)
    requires
        consistent(s),
        declared_joints(s) <= usize::MAX,
        s.on_close(line) is Ok,
    ensures
        consistent(s.on_close(line)->Ok_0),
        declared_joints(s.on_close(line)->Ok_0) == declared_joints(s),
{
    let t = s.on_close(line)->Ok_0;
    lemma_append_current(s);
    if s.in_end_site || s.depth == 1 {
        assert(t.joints == s.append_current().joints);
        assert(!t.has_current);
        assert forall|d: int| 0 <= d < t.depth implies level_taken(t, d) by {
            assert(level_taken(s, d));
        }
    } else {
        assert forall|d: int| 0 <= d < t.depth implies level_taken(t, d) by {
            assert(level_taken(s, d));
        }
    }
}

proof fn lemma_declare(s: ParserModel, name: Seq<u8>, is_end_site: bool)
    requires
        consistent(s),
        declared_joints(s) < usize::MAX,
        s.mode == ParseMode::InBlock,
    ensures
        consistent(s.declare(name, is_end_site)),
        declared_joints(s.declare(name, is_end_site)) == declared_joints(s) + 1,
{
    let t = s.declare(name, is_end_site);
    lemma_append_current(s);
    assert(level_taken(s, 0));
    assert(level_covered(t.joints, 0));
    assert(level_taken(s, s.depth - 1));
    assert forall|d: int| 0 <= d < t.depth implies level_covered(t.joints, d) by {
        assert(level_taken(s, d));
    }
    assert(t.current.channels =~= Seq::<Channel>::empty());
    assert(declared_channels(t) =~= declared_channels(s));
}

proof fn lemma_on_channels(
    s: ParserModel,
    line: usize,
    count: Option<Result<usize, NumberError>>,
    kinds: Seq<Seq<u8>>,
)
    requires
        consistent(s),
        s.on_channels(line, count, kinds) is Ok,
    ensures
        consistent(s.on_channels(line, count, kinds)->Ok_0),
        declared_joints(s.on_channels(line, count, kinds)->Ok_0) == declared_joints(s),
{
    let t = s.on_channels(line, count, kinds)->Ok_0;
    let added = numbered_channels(kinds, s.num_channels);
    assert(declared_channels(t) =~= declared_channels(s) + added);
    assert forall|i: int| 0 <= i < declared_channels(t).len() implies (#[trigger] declared_channels(
        t,
    )[i]).column_index == i by {
        if i < declared_channels(s).len() {
            assert(declared_channels(t)[i] == declared_channels(s)[i]);
        } else {
            assert(declared_channels(t)[i] == added[i - declared_channels(s).len()]);
        }
    }
    assert forall|d: int| 0 <= d < t.depth implies level_taken(t, d) by {
        assert(level_taken(s, d));
    }
}

/// A line that the parser accepts keeps its state consistent, and adds one
/// joint if it declares one.
pub proof fn lemma_step(
    s: ParserModel,
    line: usize,
    fields: Seq<Seq<u8>>,
    count: Result<usize, NumberError>,
    axes: Seq<Result<u32, NumberError>>,
)
    requires
        consistent(s),
        declared_joints(s) < usize::MAX,
        s.apply_fields(line, fields, count, axes) is Ok,
    ensures
        consistent(s.apply_fields(line, fields, count, axes)->Ok_0),
        declared_joints(s.apply_fields(line, fields, count, axes)->Ok_0) == declared_joints(s) + (
        if declares(line_kind(fields)) {
            1nat
        } else {
            0nat
        }),
{
    let t = s.apply_fields(line, fields, count, axes)->Ok_0;
    match line_kind(fields) {
        LineKind::Hierarchy => {},
        LineKind::Root => {
            assert(t.current.channels =~= Seq::<Channel>::empty());
            assert(declared_channels(t) =~= declared_channels(s));
            assert(channels_of(s.joints) =~= Seq::<Channel>::empty());
        },
        LineKind::Open => {
            lemma_on_open(s, line);
        },
        LineKind::Close => {
            lemma_on_close(s, line);
        },
        LineKind::End => {
            lemma_declare(s, Seq::empty(), true);
        },
        LineKind::Joint => {
            lemma_declare(s, fields[1], false);
        },
        LineKind::Offset => {
            assert forall|d: int| 0 <= d < t.depth implies level_taken(t, d) by {
                assert(level_taken(s, d));
            }
        },
        LineKind::Channels => {
            lemma_on_channels(
                s,
                line,
                if fields.len() > 1 {
                    Some(count)
                } else {
                    None
                },
                channel_fields(fields),
            );
        },
        LineKind::Other => {},
    }
}

/// Whether a line declares a joint or an end site: whether it can be read and
/// begins with `ROOT`, `JOINT` or `End`.
pub open spec fn line_declares(line: LineModel) -> bool {
    line.content is Some && declares(line_kind(keyword_fields(line.content->Some_0)))
}

/// The number of lines, from position `from` up to position `to`, that declare
/// a joint or an end site.
pub open spec fn declarations(lines: Seq<LineModel>, from: nat, to: nat) -> nat
    decreases to - from,
{
    if from >= to || from >= lines.len() {
        0
    } else {
        declarations(lines, from + 1, to) + if line_declares(lines[from as int]) {
            1nat
        } else {
            0nat
        }
    }
}

/// A run that succeeds from a consistent state ends in a consistent state in
/// which the skeleton is finished, and has added one joint for each line that
/// declares one.
pub proof fn lemma_run(s: ParserModel, lines: Seq<LineModel>, from: nat)
    requires
        consistent(s),
        declared_joints(s) <= from,
        lines.len() <= usize::MAX,
        run(s, lines, from).result is Ok,
    ensures
        consistent(run(s, lines, from).result->Ok_0),
        run(s, lines, from).result->Ok_0.mode == ParseMode::Finished,
        from < run(s, lines, from).position <= lines.len(),
        declared_joints(run(s, lines, from).result->Ok_0) == declared_joints(s) + declarations(
            lines,
            from,
            run(s, lines, from).position,
        ),
    decreases lines.len() - from,
{
    let line = lines[from as int];
    let content = line.content->Some_0;
    let fields = keyword_fields(content);
    let next = s.apply_line((from + 1) as usize, line)->Ok_0;
    lemma_step(s, (from + 1) as usize, fields, ParserModel::count_of(fields), line.axes);
    if next.mode == ParseMode::Finished {
        assert(declarations(lines, from + 1, from + 1) == 0);
    } else {
        lemma_run(next, lines, from + 1);
    }
}

/// Every skeleton that is read from a document is a tree, with one joint for
/// each `ROOT`, `JOINT` and `End Site` of the lines that were taken: the first
/// joint is the root, every other joint has its parent before it and stands
/// one level below it, and each joint records its own position.
pub proof fn law_skeleton_is_tree(lines: Seq<LineModel>, from: nat)
    requires
        lines.len() <= usize::MAX,
        run(ParserModel::initial(), lines, from).result is Ok,
    ensures
        is_tree(run(ParserModel::initial(), lines, from).result->Ok_0.joints),
        run(ParserModel::initial(), lines, from).result->Ok_0.joints.len() == declarations(
            lines,
            from,
            run(ParserModel::initial(), lines, from).position,
        ),
{
    lemma_initial_consistent();
    lemma_run(ParserModel::initial(), lines, from);
}

/// The channels of a skeleton that is read from a document, taken joint after
/// joint and within a joint in the order of declaration, hold the columns 0,
/// 1, 2 and so on, and there are as many as the parser counted.
pub proof fn law_channels_number_columns(lines: Seq<LineModel>, from: nat)
    requires
        lines.len() <= usize::MAX,
        run(ParserModel::initial(), lines, from).result is Ok,
    ensures
        columns_in_order(channels_of(run(ParserModel::initial(), lines, from).result->Ok_0.joints)),
        channels_of(run(ParserModel::initial(), lines, from).result->Ok_0.joints).len() == run(
            ParserModel::initial(),
            lines,
            from,
        ).result->Ok_0.num_channels,
{
    lemma_initial_consistent();
    lemma_run(ParserModel::initial(), lines, from);
}

/// The parser starts in a consistent state.
pub proof fn lemma_initial_consistent()
    ensures
        consistent(ParserModel::initial()),
        declared_joints(ParserModel::initial()) == 0,
{
    let s = ParserModel::initial();
    assert(channels_of(s.joints) =~= Seq::<Channel>::empty());
}

} // verus!
