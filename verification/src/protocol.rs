//! Ranges of guest memory, and tables of them.

use vstd::prelude::*;

verus! {

/// A range of guest physical addresses.
#[derive(Clone, Copy, Debug, PartialEq, Eq, Structural)]
pub struct MemoryRange {
    pub gpa: u64,
    pub length: u64,
}

/// How many bytes `ranges` hold in all.
pub open spec fn total_length(ranges: Seq<MemoryRange>) -> nat
    decreases ranges.len(),
{
    if ranges.len() == 0 {
        0
    } else {
        total_length(ranges.drop_last()) + ranges.last().length as nat
    }
}

/// One range more adds its length.
pub(crate) proof fn lemma_total_length_step(ranges: Seq<MemoryRange>, index: int)
    requires
        0 <= index < ranges.len(),
    ensures
        total_length(ranges.take(index + 1)) == total_length(ranges.take(index))
            + ranges[index].length,
{
    assert(ranges.take(index + 1).drop_last() =~= ranges.take(index));
}

/// The total does not shrink as ranges are added.
pub(crate) proof fn lemma_total_length_grows(ranges: Seq<MemoryRange>, low: int, high: int)
    requires
        0 <= low <= high <= ranges.len(),
    ensures
        total_length(ranges.take(low)) <= total_length(ranges.take(high)),
    decreases high - low,
{
    if low < high {
        lemma_total_length_grows(ranges, low, high - 1);
        lemma_total_length_step(ranges, high - 1);
    }
}

/// A table of memory ranges, in the order in which they were added.
#[derive(Debug)]
pub struct MemoryRangeTable {
    data: Vec<MemoryRange>,
}

impl View for MemoryRangeTable {
    type V = Seq<MemoryRange>;

    closed spec fn view(&self) -> Seq<MemoryRange> {
        self.data@
    }
}

impl Default for MemoryRangeTable {
    /// An empty table.
    fn default() -> (table: Self)
        ensures
            table@ == Seq::<MemoryRange>::empty(),
    {
        MemoryRangeTable { data: Vec::new() }
    }
}

impl Clone for MemoryRangeTable {
    /// A table of the same ranges.
    fn clone(&self) -> (table: Self)
        ensures
            table@ == self@,
    {
        let data: Vec<MemoryRange> = self.data.clone();
        assert(data@ =~= self.data@);
        MemoryRangeTable { data }
    }
}

impl MemoryRangeTable {
    /// The ranges of the table.
    pub fn regions(&self) -> (regions: &Vec<MemoryRange>)
        ensures
            regions@ == self@,
    {
        &self.data
    }

    /// Adds a range at the end.
    pub fn push(&mut self, range: MemoryRange)
        ensures
            final(self)@ == old(self)@.push(range),
    {
        self.data.push(range);
    }

    /// Adds the ranges of `table` at the end.
    pub fn extend(&mut self, table: Self)
        ensures
            final(self)@ == old(self)@ + table@,
    {
        let mut data: Vec<MemoryRange> = table.data;
        self.data.append(&mut data);
    }

    /// The ranges of the table, which is given up.
    pub fn into_regions(self) -> (regions: Vec<MemoryRange>)
        ensures
            regions@ == self@,
    {
        self.data
    }
}

/// Ranges hold together what they hold apart: the total of a table is the sum over
/// its ranges, however it is split.
pub proof fn law_total_length_is_a_sum(
    first: Seq<MemoryRange>,
    second: Seq<MemoryRange>,
    range: MemoryRange,
)
    ensures
        total_length(Seq::empty()) == 0,
        total_length(seq![range]) == range.length,
        total_length(first + second) == total_length(first) + total_length(second),
    decreases second.len(),
{
    assert(seq![range].drop_last() =~= Seq::empty());
    assert(total_length(seq![range]) == total_length(seq![range].drop_last()) + range.length);
    if second.len() == 0 {
        assert(first + second =~= first);
    } else {
        law_total_length_is_a_sum(first, second.drop_last(), range);
        assert((first + second).drop_last() =~= first + second.drop_last());
        assert((first + second).last() == second.last());
    }
}

} // verus!
