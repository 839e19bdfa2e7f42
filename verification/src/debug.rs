//! The debug overlay: labelled values gathered during one frame, handed out in
//! label order, and gone before the next frame begins.

use crate::label::{
    label_before, lemma_before_is_irreflexive, lemma_before_is_total, lemma_before_is_transitive,
    place_of, Place,
};
use vstd::prelude::*;
use vstd::string::*;
use vstd::utf8::*;

verus! {

/// One line of the overlay: a label and its formatted value.
#[derive(Debug)]
pub struct DebugLine {
    pub label: String,
    pub value: String,
}

/// Whether the labels of `lines` strictly ascend.
pub open spec fn sorted_by_label(lines: Seq<DebugLine>) -> bool {
    forall|i: int, j: int|
        0 <= i < j < lines.len() ==> label_before(
            (#[trigger] lines[i]).label@,
            (#[trigger] lines[j]).label@,
        )
}

/// Whether a line of `lines` carries `label`.
pub open spec fn has_label(lines: Seq<DebugLine>, label: Seq<char>) -> bool {
    exists|i: int| 0 <= i < lines.len() && (#[trigger] lines[i]).label@ == label
}

/// The mapping from label to value that `lines` hold.
pub open spec fn snapshot_of(lines: Seq<DebugLine>) -> Map<Seq<char>, Seq<char>> {
    Map::new(
        |label: Seq<char>| has_label(lines, label),
        |label: Seq<char>|
            lines[choose|i: int| 0 <= i < lines.len() && (#[trigger] lines[i]).label@ == label].value@,
    )
}

/// Lines in label order carry distinct labels.
pub proof fn lemma_labels_are_distinct(lines: Seq<DebugLine>, i: int, j: int)
    requires
        sorted_by_label(lines),
        0 <= i < lines.len(),
        0 <= j < lines.len(),
        lines[i].label@ == lines[j].label@,
    ensures
        i == j,
{
    lemma_before_is_irreflexive(encode_utf8(lines[i].label@));
}

/// In lines in label order, the value mapped to a line's label is that
/// line's value.
pub proof fn lemma_snapshot_at(lines: Seq<DebugLine>, j: int)
    requires
        sorted_by_label(lines),
        0 <= j < lines.len(),
    ensures
        snapshot_of(lines).contains_key(lines[j].label@),
        snapshot_of(lines)[lines[j].label@] == lines[j].value@,
{
    let label = lines[j].label@;
    let c = choose|i: int| 0 <= i < lines.len() && (#[trigger] lines[i]).label@ == label;
    lemma_labels_are_distinct(lines, c, j);
}

/// Replacing a line by one with the same label keeps the order and maps the
/// label to the new value.
proof fn lemma_replace(lines: Seq<DebugLine>, i: int, line: DebugLine)
    requires
        sorted_by_label(lines),
        0 <= i < lines.len(),
        line.label@ == lines[i].label@,
    ensures
        sorted_by_label(lines.update(i, line)),
        snapshot_of(lines.update(i, line)) == snapshot_of(lines).insert(line.label@, line.value@),
{
    let after = lines.update(i, line);
    assert forall|a: int, b: int| 0 <= a < b < after.len() implies label_before(
        (#[trigger] after[a]).label@,
        (#[trigger] after[b]).label@,
    ) by {
        assert(after[a].label@ == lines[a].label@);
        assert(after[b].label@ == lines[b].label@);
    }
    let expected = snapshot_of(lines).insert(line.label@, line.value@);
    assert forall|label: Seq<char>| snapshot_of(after).contains_key(label) == expected.contains_key(
        label,
    ) by {
        if has_label(after, label) {
            let j = choose|j: int| 0 <= j < after.len() && (#[trigger] after[j]).label@ == label;
            assert(lines[j].label@ == label);
        }
        if has_label(lines, label) {
            let j = choose|j: int| 0 <= j < lines.len() && (#[trigger] lines[j]).label@ == label;
            assert(after[j].label@ == label);
        }
        if label == line.label@ {
            assert(after[i].label@ == label);
        }
    }
    assert forall|label: Seq<char>| snapshot_of(after).contains_key(label) implies snapshot_of(
        after,
    )[label] == expected[label] by {
        let j = choose|j: int| 0 <= j < after.len() && (#[trigger] after[j]).label@ == label;
        lemma_snapshot_at(after, j);
        if j != i {
            assert(after[j] == lines[j]);
            lemma_snapshot_at(lines, j);
            if label == line.label@ {
                lemma_labels_are_distinct(after, i, j);
            }
        }
    }
    assert(snapshot_of(after) =~= expected);
}

/// Putting a line between the labels that sort before its own and those that
/// sort after keeps the order and adds the line's label with its value.
proof fn lemma_insert(lines: Seq<DebugLine>, i: int, line: DebugLine)
    requires
        sorted_by_label(lines),
        0 <= i <= lines.len(),
        forall|j: int| 0 <= j < i ==> label_before((#[trigger] lines[j]).label@, line.label@),
        i < lines.len() ==> label_before(line.label@, lines[i].label@),
    ensures
        sorted_by_label(lines.insert(i, line)),
        snapshot_of(lines.insert(i, line)) == snapshot_of(lines).insert(line.label@, line.value@),
{
    let after = lines.insert(i, line);
    assert forall|j: int| i <= j < lines.len() implies label_before(
        line.label@,
        (#[trigger] lines[j]).label@,
    ) by {
        if j > i {
            lemma_before_is_transitive(
                encode_utf8(line.label@),
                encode_utf8(lines[i].label@),
                encode_utf8(lines[j].label@),
            );
        }
    }
    assert forall|a: int, b: int| 0 <= a < b < after.len() implies label_before(
        (#[trigger] after[a]).label@,
        (#[trigger] after[b]).label@,
    ) by {
        let from_a = if a < i {
            a
        } else {
            a - 1
        };
        let from_b = if b < i {
            b
        } else {
            b - 1
        };
        if a != i {
            assert(after[a] == lines[from_a]);
        }
        if b != i {
            assert(after[b] == lines[from_b]);
        }
    }
    assert forall|j: int| 0 <= j < lines.len() implies (#[trigger] lines[j]).label@
        != line.label@ by {
        lemma_before_is_total(encode_utf8(lines[j].label@), encode_utf8(line.label@));
    }
    let expected = snapshot_of(lines).insert(line.label@, line.value@);
    assert forall|label: Seq<char>| snapshot_of(after).contains_key(label) == expected.contains_key(
        label,
    ) by {
        if has_label(after, label) {
            let j = choose|j: int| 0 <= j < after.len() && (#[trigger] after[j]).label@ == label;
            if j < i {
                assert(lines[j].label@ == label);
            } else if j > i {
                assert(lines[j - 1].label@ == label);
            }
        }
        if has_label(lines, label) {
            let j = choose|j: int| 0 <= j < lines.len() && (#[trigger] lines[j]).label@ == label;
            if j < i {
                assert(after[j].label@ == label);
            } else {
                assert(after[j + 1].label@ == label);
            }
        }
        if label == line.label@ {
            assert(after[i].label@ == label);
        }
    }
    assert forall|label: Seq<char>| snapshot_of(after).contains_key(label) implies snapshot_of(
        after,
    )[label] == expected[label] by {
        let j = choose|j: int| 0 <= j < after.len() && (#[trigger] after[j]).label@ == label;
        lemma_snapshot_at(after, j);
        if j < i {
            assert(after[j] == lines[j]);
            lemma_snapshot_at(lines, j);
        } else if j > i {
            assert(after[j] == lines[j - 1]);
            lemma_snapshot_at(lines, j - 1);
        }
    }
    assert(snapshot_of(after) =~= expected);
}

/// The frame's snapshot of labelled values. It is kept in label order.
#[derive(Debug)]
pub struct DebugOverlay {
    entries: Vec<DebugLine>,
}

impl View for DebugOverlay {
    type V = Map<Seq<char>, Seq<char>>;

    closed spec fn view(&self) -> Map<Seq<char>, Seq<char>> {
        snapshot_of(self.entries@)
    }
}

impl DebugOverlay {
    #[verifier::type_invariant]
    spec fn in_label_order(self) -> bool {
        sorted_by_label(self.entries@)
    }

    /// An overlay with nothing recorded.
    pub fn new() -> (overlay: DebugOverlay)
        ensures
            overlay@ == Map::<Seq<char>, Seq<char>>::empty(),
    {
        let overlay = DebugOverlay { entries: Vec::new() };
        assert(overlay@ =~= Map::<Seq<char>, Seq<char>>::empty());
        overlay
    }

    /// Whether nothing is recorded.
    pub fn is_empty(&self) -> (empty: bool)
        ensures
            empty == (self@ == Map::<Seq<char>, Seq<char>>::empty()),
    {
        proof {
            use_type_invariant(self);
            if self.entries@.len() > 0 {
                lemma_snapshot_at(self.entries@, 0);
            } else {
                assert(self@ =~= Map::<Seq<char>, Seq<char>>::empty());
            }
        }
        self.entries.len() == 0
    }

    /// Records `value` under `label` for this frame, in place of any value
    /// recorded under the same label before.
    pub fn record(&mut self, label: &str, value: String)
        ensures
            final(self)@ == old(self)@.insert(label@, value@),
    {
        proof {
            use_type_invariant(&*self);
        }
        let line = DebugLine { label: label.to_owned(), value };
        let mut entries: Vec<DebugLine> = Vec::new();
        core::mem::swap(&mut self.entries, &mut entries);
        let mut i: usize = 0;
        while i < entries.len()
            invariant
                i <= entries.len(),
                entries@ == old(self).entries@,
                sorted_by_label(entries@),
                line.label@ == label@,
                line.value@ == value@,
                forall|j: int| 0 <= j < i ==> label_before((#[trigger] entries@[j]).label@, label@),
            decreases entries.len() - i,
        {
            match place_of(entries[i].label.as_str(), label) {
                Place::Before => {
                    i += 1;
                },
                Place::Same => {
                    proof {
                        lemma_replace(entries@, i as int, line);
                    }
                    entries.set(i, line);
                    self.entries = entries;
                    return ;
                },
                Place::After => {
                    proof {
                        lemma_insert(entries@, i as int, line);
                    }
                    entries.insert(i, line);
                    self.entries = entries;
                    return ;
                },
            }
        }
        proof {
            lemma_insert(entries@, i as int, line);
        }
        entries.push(line);
        assert(entries@ == old(self).entries@.insert(i as int, line));
        self.entries = entries;
    }

    /// Hands out the frame's lines in label order and clears the overlay,
    /// whatever becomes of the lines afterwards.
    pub fn flush(&mut self) -> (lines: Vec<DebugLine>)
        ensures
            final(self)@ == Map::<Seq<char>, Seq<char>>::empty(),
            sorted_by_label(lines@),
            snapshot_of(lines@) == old(self)@,
    {
        proof {
            use_type_invariant(&*self);
        }
        let mut lines: Vec<DebugLine> = Vec::new();
        core::mem::swap(&mut self.entries, &mut lines);
        assert(self@ =~= Map::<Seq<char>, Seq<char>>::empty());
        lines
    }
}

/// The snapshot after `records`, label and value each, were recorded in turn
/// on top of `start`.
pub open spec fn recorded(
    start: Map<Seq<char>, Seq<char>>,
    records: Seq<(Seq<char>, Seq<char>)>,
) -> Map<Seq<char>, Seq<char>>
    decreases records.len(),
{
    if records.len() == 0 {
        start
    } else {
        recorded(start, records.drop_last()).insert(records.last().0, records.last().1)
    }
}

/// Nothing survives a flush: a frame that starts from a flushed overlay
/// holds exactly the labels recorded during that frame, each with the value
/// recorded last under it.
pub proof fn lemma_frame_holds_only_its_records(records: Seq<(Seq<char>, Seq<char>)>)
    ensures
        forall|label: Seq<char>|
            recorded(Map::empty(), records).contains_key(label) <==> exists|i: int|
                0 <= i < records.len() && (#[trigger] records[i]).0 == label,
        forall|i: int|
            0 <= i < records.len() && (forall|j: int|
                i < j < records.len() ==> (#[trigger] records[j]).0 != records[i].0)
                ==> recorded(Map::empty(), records)[(#[trigger] records[i]).0] == records[i].1,
    decreases records.len(),
{
    let frame = recorded(Map::empty(), records);
    if records.len() > 0 {
        let earlier = records.drop_last();
        let before = recorded(Map::empty(), earlier);
        lemma_frame_holds_only_its_records(earlier);
        assert(frame == before.insert(records.last().0, records.last().1));
        assert forall|label: Seq<char>| frame.contains_key(label) <==> exists|i: int|
            0 <= i < records.len() && (#[trigger] records[i]).0 == label by {
            if frame.contains_key(label) {
                if label == records.last().0 {
                    assert(records[records.len() - 1].0 == label);
                } else {
                    assert(before.contains_key(label));
                    let i = choose|i: int| 0 <= i < earlier.len() && (#[trigger] earlier[i]).0 == label;
                    assert(records[i].0 == label);
                }
            }
            if exists|i: int| 0 <= i < records.len() && (#[trigger] records[i]).0 == label {
                let i = choose|i: int| 0 <= i < records.len() && (#[trigger] records[i]).0 == label;
                if i < earlier.len() {
                    assert(earlier[i].0 == label);
                    assert(before.contains_key(label));
                }
            }
        }
        assert forall|i: int|
            0 <= i < records.len() && (forall|j: int|
                i < j < records.len() ==> (#[trigger] records[j]).0 != records[i].0) implies frame[(
        #[trigger] records[i]).0] == records[i].1 by {
            if i < earlier.len() {
                assert(earlier[i] == records[i]);
                assert(records[records.len() - 1].0 != records[i].0);
                assert forall|j: int| i < j < earlier.len() implies (#[trigger] earlier[j]).0
                    != earlier[i].0 by {
                    assert(earlier[j] == records[j]);
                }
            }
        }
    }
}

/// The text of one overlay line: the label, a colon and a space, the value.
pub fn line_text(label: &str, value: &str) -> (text: String)
    ensures
        text@ == label@ + ": "@ + value@,
{
    let mut text = label.to_owned();
    text.append(": ");
    text.append(value);
    text
}

/// Distance of the overlay from the left and the top edge, in pixels.
pub const MARGIN: i32 = 50;

/// Sum of the first `n` of `heights`.
pub open spec fn heights_sum(heights: Seq<u32>, n: int) -> int
    decreases n,
{
    if n <= 0 {
        0
    } else {
        heights_sum(heights, n - 1) + heights[n - 1]
    }
}

/// Top edge of row `i` where rows of `heights` are stacked below the margin.
pub open spec fn row_top(heights: Seq<u32>, i: int) -> int {
    MARGIN + heights_sum(heights, i)
}

/// Whether the top edge of every row is a valid coordinate.
pub open spec fn rows_fit(heights: Seq<u32>) -> bool {
    forall|i: int| 0 <= i < heights.len() ==> #[trigger] row_top(heights, i) <= i32::MAX
}

/// Stacks rows of the given heights below the margin, each directly under
/// the one before, and returns the top edge of each. There is no layout where
/// a row would start beyond the largest coordinate.
pub fn layout_rows(heights: &Vec<u32>) -> (tops: Option<Vec<i32>>)
    ensures
        tops is Some <==> rows_fit(heights@),
        tops matches Some(t) ==> t@.len() == heights@.len() && forall|i: int|
            0 <= i < t@.len() ==> #[trigger] t@[i] == row_top(heights@, i),
{
    let limit: u64 = 2147483597;
    let mut tops: Vec<i32> = Vec::new();
    let mut offset: u64 = 0;
    let mut i: usize = 0;
    while i < heights.len()
        invariant
            i <= heights.len(),
            limit == i32::MAX - MARGIN,
            offset == heights_sum(heights@, i as int),
            offset <= limit || i > 0,
            offset <= limit + u32::MAX,
            tops@.len() == i,
            forall|j: int| 0 <= j < i ==> #[trigger] tops@[j] == row_top(heights@, j),
            forall|j: int| 0 <= j < i ==> #[trigger] row_top(heights@, j) <= i32::MAX,
        decreases heights.len() - i,
    {
        if offset > limit {
            assert(row_top(heights@, i as int) > i32::MAX);
            return None;
        }
        let top: i32 = MARGIN + (offset as i32);
        tops.push(top);
        offset = offset + (heights[i] as u64);
        i += 1;
    }
    Some(tops)
}

} // verus!
