use vstd::prelude::*;
use itertools::Itertools;
use crate::pc::{LineNumber, ProgramCounter};

verus! {

/// The source line that starts at an address.
#[derive(Debug, PartialEq, Eq, Clone, Copy, Structural)]
pub struct LineNumberTableEntry {
    pub program_counter: ProgramCounter,
    pub line_number: LineNumber,
}

impl LineNumberTableEntry {
    /// The entry that lets `line_number` start at `program_counter`.
    pub fn new(program_counter: ProgramCounter, line_number: LineNumber) -> (entry: Self)
        ensures
            entry.program_counter == program_counter,
            entry.line_number == line_number,
    {
        Self { program_counter, line_number }
    }
}

/// The addresses do not go down along the sequence.
pub open spec fn ascending(entries: Seq<LineNumberTableEntry>) -> bool {
    forall|i: int, j: int|
        0 <= i <= j < entries.len() ==> entries[i].program_counter.0
            <= entries[j].program_counter.0
}

/// The entries that stand at the address `pc`, in the order of the
/// sequence.
pub open spec fn entries_at(entries: Seq<LineNumberTableEntry>, pc: u16) -> Seq<
    LineNumberTableEntry,
> {
    entries.filter(|entry: LineNumberTableEntry| entry.program_counter.0 == pc)
}

/// `output` is `input` sorted by address, entries of one address staying in
/// the order they had.
pub open spec fn stably_sorted(
    input: Seq<LineNumberTableEntry>,
    output: Seq<LineNumberTableEntry>,
) -> bool {
    &&& output.len() == input.len()
    &&& ascending(output)
    &&& forall|pc: u16| #[trigger] entries_at(output, pc) == entries_at(input, pc)
}

/// `index` is the place of the last entry whose address is not after `pc`.
pub open spec fn is_floor(entries: Seq<LineNumberTableEntry>, pc: ProgramCounter, index: int) -> bool {
    &&& 0 <= index < entries.len()
    &&& entries[index].program_counter.0 <= pc.0
    &&& forall|later: int|
        index < later < entries.len() ==> pc.0 < (#[trigger] entries[later]).program_counter.0
}

/// Calls `itertools::Itertools::sorted_by_key` with the address as the key
/// and collects the result.
///
/// Trusted: the adaptor sorts with the stable sort of std, so the result
/// holds the same entries in ascending order of address, and entries of
/// equal address keep their order.
#[verifier::external_body]
fn sorted_by_address(entries: Vec<LineNumberTableEntry>) -> (sorted: Vec<LineNumberTableEntry>)
    ensures
        stably_sorted(entries@, sorted@),
{
    entries.into_iter().sorted_by_key(|entry| entry.program_counter.0).collect()
}

/// Relates the addresses of a method's code to the lines of its source.
///
/// The entries are kept in ascending order of address: an entry says where
/// a line starts, and the line runs up to the next entry.
#[derive(Debug, PartialEq)]
pub struct LineNumberTable {
    entries: Vec<LineNumberTableEntry>,
}

impl View for LineNumberTable {
    type V = Seq<LineNumberTableEntry>;

    closed spec fn view(&self) -> Seq<LineNumberTableEntry> {
        self.entries@
    }
}

impl LineNumberTable {
    #[verifier::type_invariant]
    spec fn sorted(self) -> bool {
        ascending(self.entries@)
    }

    /// Some entry stands at `pc` or before it, so that `pc` has a line.
    pub open spec fn covers(&self, pc: ProgramCounter) -> bool {
        self@.len() > 0 && self@[0].program_counter.0 <= pc.0
    }

    /// A table of the entries, sorted by address.
    pub fn new(entries: Vec<LineNumberTableEntry>) -> (table: Self)
        ensures
            stably_sorted(entries@, table@),
    {
        Self { entries: sorted_by_address(entries) }
    }

    /// Tells whether [`lookup_pc`](Self::lookup_pc) may be asked for `pc`.
    pub fn has_line_for(&self, pc: ProgramCounter) -> (covered: bool)
        ensures
            covered == self.covers(pc),
    {
        self.entries.len() > 0 && self.entries[0].program_counter.0 <= pc.0
    }

    /// The line of the last entry whose address is not after `pc`.
    ///
    /// The table must hold an entry at or before `pc`; in the table of a
    /// well-formed method the first entry stands at address 0, so that
    /// every address of the method qualifies.
    pub fn lookup_pc(&self, pc: ProgramCounter) -> (line: LineNumber)
        requires
            self.covers(pc),
        ensures
            exists|index: int| is_floor(self@, pc, index) && line == self@[index].line_number,
    {
        proof {
            use_type_invariant(self);
        }
        // `low` entries are known to be at or before `pc`, those from `high`
        // on to be after it.
        let mut low: usize = 1;
        let mut high: usize = self.entries.len();
        while low < high
            invariant
                1 <= low <= high <= self.entries@.len(),
                ascending(self.entries@),
                self.entries@[low - 1].program_counter.0 <= pc.0,
                forall|later: int|
                    high <= later < self.entries@.len() ==> pc.0 < (
                    #[trigger] self.entries@[later]).program_counter.0,
            decreases high - low,
        {
            let middle = low + (high - low) / 2;
            if self.entries[middle].program_counter.0 <= pc.0 {
                low = middle + 1;
            } else {
                high = middle;
            }
        }
        assert(is_floor(self@, pc, low - 1));
        self.entries[low - 1].line_number
    }
}

} // verus!
