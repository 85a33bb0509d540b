use vstd::prelude::*;
use std::ops::Range;
use crate::pc::ProgramCounter;

verus! {

/// One handler of a method: the addresses it guards, where it starts, and
/// the class it catches.
#[derive(Debug, PartialEq, Eq)]
pub struct ExceptionTableEntry {
    /// The guarded addresses, from `start` up to but not including `end`.
    pub range: Range<ProgramCounter>,
    /// The address of the handler.
    pub handler_pc: ProgramCounter,
    /// The class, or a superclass of the classes, that the handler catches;
    /// absent for a handler that catches everything.
    pub catch_class: Option<String>,
}

impl ExceptionTableEntry {
    /// The address lies in the guarded range.
    pub open spec fn covers(&self, pc: ProgramCounter) -> bool {
        self.range.start.0 <= pc.0 < self.range.end.0
    }
}

/// Mathematical value of an [`ExceptionTableEntry`].
pub ghost struct ExceptionTableEntryView {
    pub start: u16,
    pub end: u16,
    pub handler: u16,
    pub catch_class: Option<Seq<char>>,
}

impl View for ExceptionTableEntry {
    type V = ExceptionTableEntryView;

    open spec fn view(&self) -> ExceptionTableEntryView {
        ExceptionTableEntryView {
            start: self.range.start.0,
            end: self.range.end.0,
            handler: self.handler_pc.0,
            catch_class: match self.catch_class {
                Some(class) => Some(class@),
                None => None,
            },
        }
    }
}

/// The mathematical values of the entries, in order.
pub open spec fn entry_views(entries: Seq<ExceptionTableEntry>) -> Seq<ExceptionTableEntryView> {
    entries.map_values(|entry: ExceptionTableEntry| entry@)
}

impl Clone for ExceptionTableEntry {
    fn clone(&self) -> (copy: Self)
        ensures
            copy@ == self@,
    {
        ExceptionTableEntry {
            range: Range { start: self.range.start, end: self.range.end },
            handler_pc: self.handler_pc,
            catch_class: match &self.catch_class {
                Some(class) => Some(class.clone()),
                None => None,
            },
        }
    }
}

/// The handlers of a method, in the order in which the class file lists
/// them, which is the order in which they are tried.
#[derive(Debug, PartialEq)]
pub struct ExceptionTable {
    entries: Vec<ExceptionTableEntry>,
}

impl View for ExceptionTable {
    type V = Seq<ExceptionTableEntry>;

    closed spec fn view(&self) -> Seq<ExceptionTableEntry> {
        self.entries@
    }
}

impl Default for ExceptionTable {
    fn default() -> (table: Self)
        ensures
            table@.len() == 0,
    {
        ExceptionTable { entries: Vec::new() }
    }
}

impl ExceptionTable {
    /// A table of the entries, in the order given.
    pub fn new(entries: Vec<ExceptionTableEntry>) -> (table: Self)
        ensures
            table@ == entries@,
    {
        Self { entries }
    }

    /// Every entry whose range holds `pc`, in table order.
    pub fn lookup(&self, pc: ProgramCounter) -> (found: Vec<&ExceptionTableEntry>)
        ensures
            found@.map_values(|entry: &ExceptionTableEntry| *entry) == self@.filter(
                |entry: ExceptionTableEntry| entry.covers(pc),
            ),
    {
        let mut found: Vec<&ExceptionTableEntry> = Vec::new();
        let ghost covering = |entry: ExceptionTableEntry| entry.covers(pc);
        let mut i: usize = 0;
        proof {
            reveal(Seq::filter);
        }
        while i < self.entries.len()
            invariant
                i <= self.entries@.len(),
                covering == |entry: ExceptionTableEntry| entry.covers(pc),
                found@.map_values(|entry: &ExceptionTableEntry| *entry) == self.entries@.take(
                    i as int,
                ).filter(covering),
            decreases self.entries@.len() - i,
        {
            let entry = &self.entries[i];
            let ghost before = found@.map_values(|entry: &ExceptionTableEntry| *entry);
            proof {
                reveal(Seq::filter);
                assert(self.entries@.take(i + 1).drop_last() == self.entries@.take(i as int));
                assert(self.entries@.take(i + 1).last() == *entry);
            }
            if entry.range.start.0 <= pc.0 && pc.0 < entry.range.end.0 {
                found.push(entry);
                assert(found@.map_values(|entry: &ExceptionTableEntry| *entry) == before.push(
                    *entry,
                ));
            }
            i = i + 1;
        }
        assert(self.entries@.take(i as int) == self.entries@);
        found
    }
}

} // verus!
