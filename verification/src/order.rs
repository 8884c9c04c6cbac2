//! The parent that the reverse scan finds is the joint whose braces enclose
//! the child: the joints stand in the order of the document, so the last
//! joint one level higher is the nearest one above the child.

use vstd::prelude::*;
use crate::errors::NumberError;
use crate::hierarchy::{line_kind, run, LineKind, ParseMode, ParserModel};
use crate::joint::{parent_lookup, JointModel};
use crate::lines::LineModel;
use crate::tokens::keyword_fields;
use crate::tree::{
    child_ok, consistent, declared_joints, is_tree, level_covered, level_taken,
    lemma_append_current, lemma_initial_consistent, lemma_parent_lookup, lemma_step, position_ok,
};

verus! {

/// The joint at position `k` stands at most one level below the joint before it.
pub open spec fn step_ok(joints: Seq<JointModel>, k: int) -> bool {
    joints[k].depth <= joints[k - 1].depth + 1
}

/// The joints stand in the order of the document: from one joint to the next
/// the level rises by one at most.
pub open spec fn in_document_order(joints: Seq<JointModel>) -> bool {
    forall|k: int| 1 <= k < joints.len() ==> #[trigger] step_ok(joints, k)
}

/// The joint at position `k` records the parent that the reverse scan finds
/// among the joints before it.
pub open spec fn scan_ok(joints: Seq<JointModel>, k: int) -> bool {
    joints[k].depth < usize::MAX && joints[k].parent_index == parent_lookup(
        joints.subrange(0, k),
        (joints[k].depth + 1) as usize,
    )
}

/// Every joint but the first records the parent that the reverse scan finds.
pub open spec fn parents_scanned(joints: Seq<JointModel>) -> bool {
    forall|k: int| 1 <= k < joints.len() ==> #[trigger] scan_ok(joints, k)
}

/// The joints between the joint at position `k` and its parent all stand
/// below the parent: the parent is the nearest joint before `k` that stands
/// higher than `k`.
pub open spec fn parent_is_nearest(joints: Seq<JointModel>, k: int) -> bool {
    forall|m: int|
        joints[k].parent_index < m < k ==> (#[trigger] joints[m]).depth
            > joints[joints[k].parent_index as int].depth
}

/// What holds of the parser's state, besides `consistent`, after any number of lines.
pub open spec fn ordered(s: ParserModel) -> bool {
    &&& in_document_order(s.joints)
    &&& parents_scanned(s.joints)
    &&& s.has_current && s.joints.len() > 0 ==> s.current.depth <= s.joints.last().depth + 1
    &&& s.mode == ParseMode::InBlock ==> if s.has_current {
        s.depth <= s.current.depth + 1
    } else {
        s.joints.len() > 0 && s.depth <= s.joints.last().depth + 1
    }
}

/// Completing the current joint keeps the order.
proof fn lemma_append_current_ordered(s: ParserModel)
    requires
        consistent(s),
        ordered(s),
        declared_joints(s) <= usize::MAX,
    ensures
        in_document_order(s.append_current().joints),
        parents_scanned(s.append_current().joints),
        s.has_current ==> s.append_current().joints.last().depth == s.current.depth,
        !s.has_current ==> s.append_current().joints == s.joints,
{
    let t = s.append_current();
    if s.has_current {
        let joint = s.finalized();
        let last = s.joints.len() as int;
        assert forall|k: int| 1 <= k < t.joints.len() implies #[trigger] step_ok(t.joints, k) by {
            if k < last {
                assert(step_ok(s.joints, k));
            }
        }
        assert forall|k: int| 1 <= k < t.joints.len() implies #[trigger] scan_ok(t.joints, k) by {
            if k < last {
                assert(scan_ok(s.joints, k));
                assert(t.joints.subrange(0, k) =~= s.joints.subrange(0, k));
            } else {
                assert(t.joints.subrange(0, k) =~= s.joints);
            }
        }
    }
}

/// A line that the parser accepts keeps the order.
proof fn lemma_step_ordered(
    s: ParserModel,
    line: usize,
    fields: Seq<Seq<u8>>,
    count: Result<usize, NumberError>,
    axes: Seq<Result<u32, NumberError>>,
)
    requires
        consistent(s),
        ordered(s),
        declared_joints(s) < usize::MAX,
        s.apply_fields(line, fields, count, axes) is Ok,
    ensures
        ordered(s.apply_fields(line, fields, count, axes)->Ok_0),
{
    let t = s.apply_fields(line, fields, count, axes)->Ok_0;
    lemma_append_current(s);
    lemma_append_current_ordered(s);
    match line_kind(fields) {
        LineKind::Close => {
            assert(s.mode == ParseMode::InBlock);
            assert(level_taken(s, 0));
        },
        LineKind::End | LineKind::Joint => {
            assert(s.mode == ParseMode::InBlock);
            assert(level_taken(s, 0));
        },
        _ => {},
    }
}

/// A run that succeeds from a state in order ends in a state in order.
proof fn lemma_run_ordered(s: ParserModel, lines: Seq<LineModel>, from: nat)
    requires
        consistent(s),
        ordered(s),
        declared_joints(s) <= from,
        lines.len() <= usize::MAX,
        run(s, lines, from).result is Ok,
    ensures
        ordered(run(s, lines, from).result->Ok_0),
        consistent(run(s, lines, from).result->Ok_0),
    decreases lines.len() - from,
{
    let line = lines[from as int];
    let fields = keyword_fields(line.content->Some_0);
    let next = s.apply_line((from + 1) as usize, line)->Ok_0;
    lemma_step(s, (from + 1) as usize, fields, ParserModel::count_of(fields), line.axes);
    lemma_step_ordered(s, (from + 1) as usize, fields, ParserModel::count_of(fields), line.axes);
    if next.mode != ParseMode::Finished {
        lemma_run_ordered(next, lines, from + 1);
    }
}

/// Between a joint and a later joint that stands at a level or below it, in a
/// sequence in document order, every level in between is met on the way.
proof fn lemma_climb(joints: Seq<JointModel>, low: int, high: int, level: int)
    requires
        in_document_order(joints),
        0 <= low < high < joints.len(),
        joints[low].depth < level <= joints[high].depth,
    ensures
        exists|c: int| low < c <= high && (#[trigger] joints[c]).depth == level,
    decreases high - low,
{
    assert(step_ok(joints, high));
    if joints[high].depth == level {
        assert(joints[high].depth == level);
    } else {
        // The joint before `high` stands at the level or below it too.
        assert(joints[high - 1].depth >= level);
        lemma_climb(joints, low, high - 1, level);
        let c = choose|c: int| low < c <= high - 1 && (#[trigger] joints[c]).depth == level;
        assert(low < c <= high && joints[c].depth == level);
    }
}

/// In a tree in document order whose parents the reverse scan found, the parent
/// of each joint is the nearest joint before it that stands higher.
pub proof fn lemma_parent_is_nearest(joints: Seq<JointModel>, k: int)
    requires
        is_tree(joints),
        in_document_order(joints),
        parents_scanned(joints),
        1 <= k < joints.len(),
    ensures
        parent_is_nearest(joints, k),
{
    let before = joints.subrange(0, k);
    let parent = joints[k].parent_index as int;
    let level = joints[k].depth as int;
    assert(child_ok(joints, k));
    assert(scan_ok(joints, k));
    assert forall|i: int| 0 <= i < before.len() implies #[trigger] position_ok(before, i) by {
        assert(position_ok(joints, i));
    }
    assert(before[parent] == joints[parent]);
    assert(level_covered(before, level - 1));
    lemma_parent_lookup(before, (level + 1) as usize);
    assert forall|m: int| parent < m < k implies (#[trigger] joints[m]).depth
        > joints[parent].depth by {
        assert(before[m] == joints[m]);
        if joints[m].depth < level - 1 {
            lemma_climb(joints, m, k, level - 1);
            let c = choose|c: int| m < c <= k && (#[trigger] joints[c]).depth == level - 1;
            assert(before[c] == joints[c]);
        }
    }
}

/// In every skeleton that is read from a document, the joints stand in the
/// order of the document, and the parent of each joint is the nearest joint
/// before it that stands higher: the joint whose braces enclose it. This is
/// what a stack of the open joints would give.
pub proof fn law_parent_encloses_child(lines: Seq<LineModel>, from: nat)
    requires
        lines.len() <= usize::MAX,
        run(ParserModel::initial(), lines, from).result is Ok,
    ensures
        in_document_order(run(ParserModel::initial(), lines, from).result->Ok_0.joints),
        forall|k: int|
            1 <= k < run(ParserModel::initial(), lines, from).result->Ok_0.joints.len()
                ==> #[trigger] parent_is_nearest(
                run(ParserModel::initial(), lines, from).result->Ok_0.joints,
                k,
            ),
{
    lemma_initial_consistent();
    lemma_run_ordered(ParserModel::initial(), lines, from);
    let joints = run(ParserModel::initial(), lines, from).result->Ok_0.joints;
    assert forall|k: int| 1 <= k < joints.len() implies #[trigger] parent_is_nearest(
        joints,
        k,
    ) by {
        lemma_parent_is_nearest(joints, k);
    }
}

} // verus!
