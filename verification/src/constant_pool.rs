use vstd::prelude::*;
use vstd::string::StringExecFns;
use crate::error::ClassFileParserError;
use crate::text::{decimal, decimal_text};

verus! {

/// A constant of a class file.
///
/// The variants that refer to other constants hold their indices in the
/// same pool; an index counts slots from one and is looked up only when the
/// constant is used.
#[derive(Debug, PartialEq)]
pub enum ConstantPoolEntry {
    Utf8(String),
    Integer(i32),
    /// A single-precision constant: its bit pattern, and its decimal text
    /// as it was rendered where the constant was decoded.
    Float(u32, String),
    Long(i64),
    /// A double-precision constant: its bit pattern, and its decimal text
    /// as it was rendered where the constant was decoded.
    Double(u64, String),
    ClassReference(u16),
    StringReference(u16),
    FieldReference(u16, u16),
    MethodReference(u16, u16),
    InterfaceMethodReference(u16, u16),
    NameAndTypeDescriptor(u16, u16),
}

impl ConstantPoolEntry {
    /// An eight-byte constant, which takes up two slots of the pool.
    pub open spec fn is_wide(&self) -> bool {
        self is Long || self is Double
    }
}

/// A slot of the pool: a constant, or the unusable slot behind an
/// eight-byte constant.
#[derive(Debug)]
pub enum ConstantPoolSlot {
    Entry(ConstantPoolEntry),
    PhantomEntry,
}

/// The slots that an added constant takes up.
pub open spec fn slots_of(entry: ConstantPoolEntry) -> Seq<ConstantPoolSlot> {
    if entry.is_wide() {
        seq![ConstantPoolSlot::Entry(entry), ConstantPoolSlot::PhantomEntry]
    } else {
        seq![ConstantPoolSlot::Entry(entry)]
    }
}

/// The slots of a pool to which the constants were added in this order.
pub open spec fn layout(entries: Seq<ConstantPoolEntry>) -> Seq<ConstantPoolSlot>
    decreases entries.len(),
{
    if entries.len() == 0 {
        Seq::empty()
    } else {
        layout(entries.drop_last()) + slots_of(entries.last())
    }
}

/// The slot holds an eight-byte constant.
pub open spec fn holds_wide(slot: ConstantPoolSlot) -> bool {
    slot matches ConstantPoolSlot::Entry(entry) && entry.is_wide()
}

/// Every eight-byte constant is followed by an unusable slot, and every
/// unusable slot follows an eight-byte constant.
pub open spec fn well_formed(slots: Seq<ConstantPoolSlot>) -> bool {
    forall|i: int|
        0 <= i < slots.len() ==> {
            &&& holds_wide(#[trigger] slots[i]) ==> i + 1 < slots.len() && slots[i
                + 1] is PhantomEntry
            &&& slots[i] is PhantomEntry ==> i > 0 && holds_wide(slots[i - 1])
        }
}

/// The index under which the constant added as number `position` (counted
/// from zero) is found: one more than the slots that the constants before it
/// take up.
pub open spec fn index_of(entries: Seq<ConstantPoolEntry>, position: int) -> int {
    layout(entries.take(position)).len() as int + 1
}

/// An empty pool is well formed, and adding a constant keeps a pool well
/// formed.
pub proof fn adding_keeps_well_formed(slots: Seq<ConstantPoolSlot>, entry: ConstantPoolEntry)
    requires
        well_formed(slots),
    ensures
        well_formed(Seq::<ConstantPoolSlot>::empty()),
        well_formed(slots + slots_of(entry)),
{
    let grown = slots + slots_of(entry);
    assert forall|i: int| 0 <= i < grown.len() implies {
        &&& holds_wide(#[trigger] grown[i]) ==> i + 1 < grown.len() && grown[i + 1] is PhantomEntry
        &&& grown[i] is PhantomEntry ==> i > 0 && holds_wide(grown[i - 1])
    } by {
        if i < slots.len() {
            assert(grown[i] == slots[i]);
            if i + 1 < slots.len() {
                assert(grown[i + 1] == slots[i + 1]);
            }
            if i > 0 {
                assert(grown[i - 1] == slots[i - 1]);
            }
        }
    }
}

/// The slots of any sequence of added constants are well formed.
pub proof fn layout_is_well_formed(entries: Seq<ConstantPoolEntry>)
    ensures
        well_formed(layout(entries)),
    decreases entries.len(),
{
    if entries.len() > 0 {
        layout_is_well_formed(entries.drop_last());
        adding_keeps_well_formed(layout(entries.drop_last()), entries.last());
    }
}

/// The slots of the first constants are the first slots of all of them.
pub proof fn layout_of_prefix(entries: Seq<ConstantPoolEntry>, count: int)
    requires
        0 <= count <= entries.len(),
    ensures
        layout(entries.take(count)).len() <= layout(entries).len(),
        layout(entries).take(layout(entries.take(count)).len() as int) == layout(
            entries.take(count),
        ),
    decreases entries.len(),
{
    if count == entries.len() {
        assert(entries.take(count) == entries);
    } else {
        let shorter = entries.drop_last();
        assert(entries.take(count) == shorter.take(count));
        layout_of_prefix(shorter, count);
    }
}

/// Where the constants added to a pool are found.
///
/// The constant added as number `position` is found under
/// [`index_of`], where that is an index of sixteen bits; if it is an
/// eight-byte constant, the index after it, where that is one of sixteen
/// bits too, names a phantom entry; and the constant added next is found
/// two indices on, else one index on.
pub proof fn added_constants_are_found(entries: Seq<ConstantPoolEntry>, position: int)
    requires
        0 <= position < entries.len(),
        index_of(entries, position) <= u16::MAX,
    ensures
        ({
            let slots = layout(entries);
            let index = index_of(entries, position);
            let entry = entries[position];
            &&& entry_at(slots, index as u16) == Ok::<_, ClassFileParserError>(entry)
            &&& entry.is_wide() && index + 1 <= u16::MAX ==> entry_at(slots, (index + 1) as u16)
                == Err::<ConstantPoolEntry, _>(
                ClassFileParserError::ConstantPoolIndexToPhantomEntryError((index + 1) as u16),
            )
            &&& position + 1 < entries.len() ==> index_of(entries, position + 1) == index + (if entry.is_wide() {
                2int
            } else {
                1int
            })
        }),
{
    let slots = layout(entries);
    let before = layout(entries.take(position));
    let through = layout(entries.take(position + 1));
    assert(entries.take(position + 1).drop_last() == entries.take(position));
    assert(entries.take(position + 1).last() == entries[position]);
    assert(through == before + slots_of(entries[position]));
    layout_of_prefix(entries, position + 1);
    assert(slots.take(through.len() as int) == through);
    assert(slots[before.len() as int] == through[before.len() as int]);
    if entries[position].is_wide() {
        assert(slots[before.len() as int + 1] == through[before.len() as int + 1]);
    }
}

/// Index zero and the index after the last slot name no constant, whatever
/// the pool holds.
pub proof fn ends_are_out_of_range(slots: Seq<ConstantPoolSlot>)
    ensures
        entry_at(slots, 0) == Err::<ConstantPoolEntry, _>(
            ClassFileParserError::WrongConstantPoolIndexError(0),
        ),
        slots.len() < u16::MAX ==> entry_at(slots, (slots.len() + 1) as u16) == Err::<
            ConstantPoolEntry,
            _,
        >(ClassFileParserError::WrongConstantPoolIndexError((slots.len() + 1) as u16)),
{
}

/// What a lookup of `index` finds in the slots: the constant in slot
/// `index - 1`, or the reason why there is none.
pub open spec fn entry_at(slots: Seq<ConstantPoolSlot>, index: u16) -> Result<
    ConstantPoolEntry,
    ClassFileParserError,
> {
    if index == 0 || index > slots.len() {
        Err(ClassFileParserError::WrongConstantPoolIndexError(index))
    } else {
        match slots[index - 1] {
            ConstantPoolSlot::Entry(entry) => Ok(entry),
            ConstantPoolSlot::PhantomEntry => Err(
                ClassFileParserError::ConstantPoolIndexToPhantomEntryError(index),
            ),
        }
    }
}

/// The texts of two resolved halves, put together by `combine`; where a
/// half failed or ran out of depth, the first such half decides.
pub open spec fn both(
    first: Option<Result<Seq<char>, ClassFileParserError>>,
    second: Option<Result<Seq<char>, ClassFileParserError>>,
    combine: spec_fn(Seq<char>, Seq<char>) -> Seq<char>,
) -> Option<Result<Seq<char>, ClassFileParserError>> {
    match first {
        None => None,
        Some(Err(error)) => Some(Err(error)),
        Some(Ok(a)) => match second {
            None => None,
            Some(Err(error)) => Some(Err(error)),
            Some(Ok(b)) => Some(Ok(combine(a, b))),
        },
    }
}

/// The text of one resolved constant, changed by `wrap`.
pub open spec fn one(
    inner: Option<Result<Seq<char>, ClassFileParserError>>,
    wrap: spec_fn(Seq<char>) -> Seq<char>,
) -> Option<Result<Seq<char>, ClassFileParserError>> {
    match inner {
        None => None,
        Some(Err(error)) => Some(Err(error)),
        Some(Ok(a)) => Some(Ok(wrap(a))),
    }
}

/// The plain text of the constant at `index`, following references at most
/// `depth` deep: `None` where the references run deeper, the error of the
/// first lookup that fails, or the text.
///
/// Text and numbers stand for themselves; a class or string reference reads
/// as what it refers to; a field or method reference as `owner.member`; a
/// name with its type as `name: descriptor`.
pub open spec fn text_at(slots: Seq<ConstantPoolSlot>, index: u16, depth: nat) -> Option<
    Result<Seq<char>, ClassFileParserError>,
>
    decreases depth,
{
    match entry_at(slots, index) {
        Err(error) => Some(Err(error)),
        Ok(ConstantPoolEntry::Utf8(text)) => Some(Ok(text@)),
        Ok(ConstantPoolEntry::Integer(n)) => Some(Ok(decimal(n as int))),
        Ok(ConstantPoolEntry::Float(_, text)) => Some(Ok(text@)),
        Ok(ConstantPoolEntry::Long(n)) => Some(Ok(decimal(n as int))),
        Ok(ConstantPoolEntry::Double(_, text)) => Some(Ok(text@)),
        Ok(entry) => if depth == 0 {
            None
        } else {
            let below = (depth - 1) as nat;
            match entry {
                ConstantPoolEntry::ClassReference(n) => text_at(slots, n, below),
                ConstantPoolEntry::StringReference(n) => text_at(slots, n, below),
                ConstantPoolEntry::FieldReference(i, j) => both(
                    text_at(slots, i, below),
                    text_at(slots, j, below),
                    |a: Seq<char>, b: Seq<char>| member_text(a, b),
                ),
                ConstantPoolEntry::MethodReference(i, j) => both(
                    text_at(slots, i, below),
                    text_at(slots, j, below),
                    |a: Seq<char>, b: Seq<char>| member_text(a, b),
                ),
                ConstantPoolEntry::InterfaceMethodReference(i, j) => both(
                    text_at(slots, i, below),
                    text_at(slots, j, below),
                    |a: Seq<char>, b: Seq<char>| member_text(a, b),
                ),
                ConstantPoolEntry::NameAndTypeDescriptor(i, j) => both(
                    text_at(slots, i, below),
                    text_at(slots, j, below),
                    |a: Seq<char>, b: Seq<char>| typed_name_text(a, b),
                ),
                _ => None,
            }
        },
    }
}

/// `owner.member`.
pub open spec fn member_text(owner: Seq<char>, member: Seq<char>) -> Seq<char> {
    owner + "."@ + member
}

/// `name: descriptor`.
pub open spec fn typed_name_text(name: Seq<char>, descriptor: Seq<char>) -> Seq<char> {
    name + ": "@ + descriptor
}

/// `label` followed by a value, as in `Integer: 7`.
pub open spec fn labelled(label: Seq<char>, value: Seq<char>) -> Seq<char> {
    label + value
}

/// A reference with what it refers to, as in `ClassReference: 3 => (...)`.
pub open spec fn reference_line(label: Seq<char>, n: u16, inner: Seq<char>) -> Seq<char> {
    label + decimal(n as int) + " => ("@ + inner + ")"@
}

/// A pair of references with what they refer to, as in
/// `FieldReference: 3, 4 => (...), (...)`.
pub open spec fn pair_line(
    label: Seq<char>,
    i: u16,
    j: u16,
    first: Seq<char>,
    second: Seq<char>,
) -> Seq<char> {
    label + decimal(i as int) + ", "@ + decimal(j as int) + " => ("@ + first + "), ("@ + second
        + ")"@
}

/// The description of the constant at `index` for a dump of the pool,
/// following references at most `depth` deep: `None` where the references
/// run deeper, the error of the first lookup that fails, or the
/// description, which names the kind of the constant, its content and,
/// for a reference, the description of what it refers to.
pub open spec fn description_at(slots: Seq<ConstantPoolSlot>, index: u16, depth: nat) -> Option<
    Result<Seq<char>, ClassFileParserError>,
>
    decreases depth,
{
    match entry_at(slots, index) {
        Err(error) => Some(Err(error)),
        Ok(ConstantPoolEntry::Utf8(text)) => Some(Ok("String: \""@ + text@ + "\""@)),
        Ok(ConstantPoolEntry::Integer(n)) => Some(Ok(labelled("Integer: "@, decimal(n as int)))),
        Ok(ConstantPoolEntry::Float(_, text)) => Some(Ok(labelled("Float: "@, text@))),
        Ok(ConstantPoolEntry::Long(n)) => Some(Ok(labelled("Long: "@, decimal(n as int)))),
        Ok(ConstantPoolEntry::Double(_, text)) => Some(Ok(labelled("Double: "@, text@))),
        Ok(entry) => if depth == 0 {
            None
        } else {
            let below = (depth - 1) as nat;
            match entry {
                ConstantPoolEntry::ClassReference(n) => one(
                    description_at(slots, n, below),
                    |a: Seq<char>| reference_line("ClassReference: "@, n, a),
                ),
                ConstantPoolEntry::StringReference(n) => one(
                    description_at(slots, n, below),
                    |a: Seq<char>| reference_line("StringReference: "@, n, a),
                ),
                ConstantPoolEntry::FieldReference(i, j) => both(
                    description_at(slots, i, below),
                    description_at(slots, j, below),
                    |a: Seq<char>, b: Seq<char>| pair_line("FieldReference: "@, i, j, a, b),
                ),
                ConstantPoolEntry::MethodReference(i, j) => both(
                    description_at(slots, i, below),
                    description_at(slots, j, below),
                    |a: Seq<char>, b: Seq<char>| pair_line("MethodReference: "@, i, j, a, b),
                ),
                ConstantPoolEntry::InterfaceMethodReference(i, j) => both(
                    description_at(slots, i, below),
                    description_at(slots, j, below),
                    |a: Seq<char>, b: Seq<char>|
                        pair_line("InterfaceMethodReference: "@, i, j, a, b),
                ),
                ConstantPoolEntry::NameAndTypeDescriptor(i, j) => both(
                    description_at(slots, i, below),
                    description_at(slots, j, below),
                    |a: Seq<char>, b: Seq<char>|
                        pair_line("NameAndTypeDescriptor: "@, i, j, a, b),
                ),
                _ => None,
            }
        },
    }
}

/// The index that the dump gives the slot at `position`: the position plus
/// one, cut down to sixteen bits.
pub open spec fn line_index(position: int) -> u16 {
    ((position + 1) % 0x1_0000) as u16
}

/// The line of the dump for the slot at `position`: the index and the
/// description of its constant, or a placeholder where the description
/// fails or does not come to an end.
pub open spec fn dump_line(slots: Seq<ConstantPoolSlot>, position: int) -> Seq<char> {
    let index = line_index(position);
    match description_at(slots, index, slots.len()) {
        Some(Ok(text)) => "    "@ + decimal(index as int) + ", "@ + text + "\n"@,
        _ => "    "@ + decimal(index as int) + ", ------ PhantomEntry ------\n"@,
    }
}

/// The lines of the dump for the first `count` slots.
pub open spec fn dump_lines(slots: Seq<ConstantPoolSlot>, count: nat) -> Seq<char>
    decreases count,
{
    if count == 0 {
        Seq::empty()
    } else {
        dump_lines(slots, (count - 1) as nat) + dump_line(slots, count - 1)
    }
}

/// The dump of a pool: a heading with the number of slots, and a line for
/// each slot.
pub open spec fn dump_text(slots: Seq<ConstantPoolSlot>) -> Seq<char> {
    "Constant pool: (size: "@ + decimal(slots.len() as int) + ")\n"@ + dump_lines(
        slots,
        slots.len(),
    )
}

/// The error that reports references which do not come to an end within
/// the pool, as those do that run in a circle.
pub open spec fn reports_circle(error: ClassFileParserError) -> bool {
    error matches ClassFileParserError::InvalidClassData {
        name,
        is_invalidate_constant_pool_idx,
    } && name@ == "constant pool refers to itself"@ && is_invalidate_constant_pool_idx
}

/// The result `r` is what resolving at the depth of the whole pool gives:
/// the text or the error found, or the report of a circle where the
/// references run deeper than the pool has slots.
pub open spec fn settled(
    r: Result<String, ClassFileParserError>,
    found: Option<Result<Seq<char>, ClassFileParserError>>,
) -> bool {
    match found {
        Some(outcome) => renders(Some(r), Some(outcome)),
        None => r is Err && reports_circle(r->Err_0),
    }
}

/// The exec result `r` is what the spec result `expected` says.
pub open spec fn renders(
    r: Option<Result<String, ClassFileParserError>>,
    expected: Option<Result<Seq<char>, ClassFileParserError>>,
) -> bool {
    match expected {
        None => r is None,
        Some(Err(error)) => r == Some(Err::<String, _>(error)),
        Some(Ok(text)) => r matches Some(Ok(rendered)) && rendered@ == text,
    }
}

/// The error for references that do not come to an end within the pool.
fn circle_error() -> (error: ClassFileParserError)
    ensures
        reports_circle(error),
{
    ClassFileParserError::InvalidClassData {
        name: String::from_str("constant pool refers to itself"),
        is_invalidate_constant_pool_idx: true,
    }
}

/// The constants of a class file, addressed by indices that count from one.
///
/// An eight-byte constant takes up two indices; the second one names no
/// constant.
#[derive(Debug)]
pub struct ConstantPool {
    entries: Vec<ConstantPoolSlot>,
}

impl Default for ConstantPool {
    fn default() -> (pool: Self)
        ensures
            pool.slots().len() == 0,
            pool.slots() == layout(Seq::empty()),
    {
        ConstantPool { entries: Vec::new() }
    }
}

impl ConstantPool {
    /// The slots of the pool; the constant with index `i` stands in slot
    /// `i - 1`.
    pub closed spec fn slots(&self) -> Seq<ConstantPoolSlot> {
        self.entries@
    }

    /// Number of slots.
    pub fn len(&self) -> (len: usize)
        ensures
            len == self.slots().len(),
    {
        self.entries.len()
    }

    /// Appends a constant; an eight-byte constant is followed by its
    /// unusable second slot.
    pub fn add_entry(&mut self, entry: ConstantPoolEntry)
        ensures
            final(self).slots() == old(self).slots() + slots_of(entry),
    {
        let should_insert_phantom = match &entry {
            ConstantPoolEntry::Long(_) => true,
            ConstantPoolEntry::Double(_, _) => true,
            _ => false,
        };
        self.entries.push(ConstantPoolSlot::Entry(entry));
        if should_insert_phantom {
            self.entries.push(ConstantPoolSlot::PhantomEntry);
        }
        assert(self.entries@ == old(self).entries@ + slots_of(entry));
    }

    /// The plain text of the constant at `idx`, following references at
    /// most `depth` deep; `None` where they run deeper.
    pub fn resolve_text(&self, idx: u16, depth: usize) -> (r: Option<
        Result<String, ClassFileParserError>,
    >)
        ensures
            renders(r, text_at(self.slots(), idx, depth as nat)),
        decreases depth, 0nat,
    {
        let entry = match self.get_entry(idx) {
            Ok(entry) => entry,
            Err(error) => {
                return Some(Err(error));
            },
        };
        match entry {
            ConstantPoolEntry::Utf8(s) => Some(Ok(s.clone())),
            ConstantPoolEntry::Integer(n) => Some(Ok(decimal_text(*n as i128))),
            ConstantPoolEntry::Float(_, text) => Some(Ok(text.clone())),
            ConstantPoolEntry::Long(n) => Some(Ok(decimal_text(*n as i128))),
            ConstantPoolEntry::Double(_, text) => Some(Ok(text.clone())),
            ConstantPoolEntry::ClassReference(n) => {
                if depth == 0 {
                    return None;
                }
                self.resolve_text(*n, depth - 1)
            },
            ConstantPoolEntry::StringReference(n) => {
                if depth == 0 {
                    return None;
                }
                self.resolve_text(*n, depth - 1)
            },
            ConstantPoolEntry::FieldReference(i, j) => {
                if depth == 0 {
                    return None;
                }
                self.resolve_pair(*i, *j, ".", depth - 1)
            },
            ConstantPoolEntry::MethodReference(i, j) => {
                if depth == 0 {
                    return None;
                }
                self.resolve_pair(*i, *j, ".", depth - 1)
            },
            ConstantPoolEntry::InterfaceMethodReference(i, j) => {
                if depth == 0 {
                    return None;
                }
                self.resolve_pair(*i, *j, ".", depth - 1)
            },
            ConstantPoolEntry::NameAndTypeDescriptor(i, j) => {
                if depth == 0 {
                    return None;
                }
                self.resolve_pair(*i, *j, ": ", depth - 1)
            },
        }
    }

    /// The texts of two constants with `between` in the middle.
    fn resolve_pair(&self, i: u16, j: u16, between: &str, depth: usize) -> (r: Option<
        Result<String, ClassFileParserError>,
    >)
        ensures
            renders(
                r,
                both(
                    text_at(self.slots(), i, depth as nat),
                    text_at(self.slots(), j, depth as nat),
                    |a: Seq<char>, b: Seq<char>| a + between@ + b,
                ),
            ),
        decreases depth, 1nat,
    {
        let first = match self.resolve_text(i, depth) {
            None => {
                return None;
            },
            Some(Err(error)) => {
                return Some(Err(error));
            },
            Some(Ok(text)) => text,
        };
        let second = match self.resolve_text(j, depth) {
            None => {
                return None;
            },
            Some(Err(error)) => {
                return Some(Err(error));
            },
            Some(Ok(text)) => text,
        };
        Some(Ok(first.concat(between).concat(second.as_str())))
    }

    /// The plain text of the constant at `idx`: a name, the text of a
    /// number, or the texts of what a reference refers to.
    ///
    /// Fails with the error of the first lookup that fails on the way, and
    /// with [`ClassFileParserError::InvalidClassData`] where the references
    /// do not come to an end within as many steps as the pool has slots, as
    /// those that run in a circle.
    pub fn text_of(&self, idx: u16) -> (r: Result<String, ClassFileParserError>)
        ensures
            settled(r, text_at(self.slots(), idx, self.slots().len())),
    {
        match self.resolve_text(idx, self.entries.len()) {
            Some(text) => text,
            None => Err(circle_error()),
        }
    }

    /// The description of the constant at `idx` for a dump, following
    /// references at most `depth` deep; `None` where they run deeper.
    pub fn describe(&self, idx: u16, depth: usize) -> (r: Option<
        Result<String, ClassFileParserError>,
    >)
        ensures
            renders(r, description_at(self.slots(), idx, depth as nat)),
        decreases depth, 0nat,
    {
        let entry = match self.get_entry(idx) {
            Ok(entry) => entry,
            Err(error) => {
                return Some(Err(error));
            },
        };
        match entry {
            ConstantPoolEntry::Utf8(s) => Some(
                Ok(String::from_str("String: \"").concat(s.as_str()).concat("\"")),
            ),
            ConstantPoolEntry::Integer(n) => Some(
                Ok(String::from_str("Integer: ").concat(decimal_text(*n as i128).as_str())),
            ),
            ConstantPoolEntry::Float(_, text) => Some(
                Ok(String::from_str("Float: ").concat(text.as_str())),
            ),
            ConstantPoolEntry::Long(n) => Some(
                Ok(String::from_str("Long: ").concat(decimal_text(*n as i128).as_str())),
            ),
            ConstantPoolEntry::Double(_, text) => Some(
                Ok(String::from_str("Double: ").concat(text.as_str())),
            ),
            ConstantPoolEntry::ClassReference(n) => {
                if depth == 0 {
                    return None;
                }
                self.describe_reference("ClassReference: ", *n, depth - 1)
            },
            ConstantPoolEntry::StringReference(n) => {
                if depth == 0 {
                    return None;
                }
                self.describe_reference("StringReference: ", *n, depth - 1)
            },
            ConstantPoolEntry::FieldReference(i, j) => {
                if depth == 0 {
                    return None;
                }
                self.describe_pair("FieldReference: ", *i, *j, depth - 1)
            },
            ConstantPoolEntry::MethodReference(i, j) => {
                if depth == 0 {
                    return None;
                }
                self.describe_pair("MethodReference: ", *i, *j, depth - 1)
            },
            ConstantPoolEntry::InterfaceMethodReference(i, j) => {
                if depth == 0 {
                    return None;
                }
                self.describe_pair("InterfaceMethodReference: ", *i, *j, depth - 1)
            },
            ConstantPoolEntry::NameAndTypeDescriptor(i, j) => {
                if depth == 0 {
                    return None;
                }
                self.describe_pair("NameAndTypeDescriptor: ", *i, *j, depth - 1)
            },
        }
    }

    /// The line of a reference to one constant.
    fn describe_reference(&self, label: &str, n: u16, depth: usize) -> (r: Option<
        Result<String, ClassFileParserError>,
    >)
        ensures
            renders(
                r,
                one(
                    description_at(self.slots(), n, depth as nat),
                    |a: Seq<char>| reference_line(label@, n, a),
                ),
            ),
        decreases depth, 1nat,
    {
        let inner = match self.describe(n, depth) {
            None => {
                return None;
            },
            Some(Err(error)) => {
                return Some(Err(error));
            },
            Some(Ok(text)) => text,
        };
        Some(
            Ok(
                String::from_str(label).concat(decimal_text(n as i128).as_str()).concat(
                    " => (",
                ).concat(inner.as_str()).concat(")"),
            ),
        )
    }

    /// The line of a reference to two constants.
    fn describe_pair(&self, label: &str, i: u16, j: u16, depth: usize) -> (r: Option<
        Result<String, ClassFileParserError>,
    >)
        ensures
            renders(
                r,
                both(
                    description_at(self.slots(), i, depth as nat),
                    description_at(self.slots(), j, depth as nat),
                    |a: Seq<char>, b: Seq<char>| pair_line(label@, i, j, a, b),
                ),
            ),
        decreases depth, 1nat,
    {
        let first = match self.describe(i, depth) {
            None => {
                return None;
            },
            Some(Err(error)) => {
                return Some(Err(error));
            },
            Some(Ok(text)) => text,
        };
        let second = match self.describe(j, depth) {
            None => {
                return None;
            },
            Some(Err(error)) => {
                return Some(Err(error));
            },
            Some(Ok(text)) => text,
        };
        Some(
            Ok(
                String::from_str(label).concat(decimal_text(i as i128).as_str()).concat(
                    ", ",
                ).concat(decimal_text(j as i128).as_str()).concat(" => (").concat(
                    first.as_str(),
                ).concat("), (").concat(second.as_str()).concat(")"),
            ),
        )
    }

    /// The description of the constant at `idx` for a dump of the pool.
    ///
    /// Fails with the error of the first lookup that fails on the way, and
    /// with [`ClassFileParserError::InvalidClassData`] where the references
    /// do not come to an end within as many steps as the pool has slots, as
    /// those that run in a circle.
    pub fn fmt_entry(&self, idx: u16) -> (r: Result<String, ClassFileParserError>)
        ensures
            settled(r, description_at(self.slots(), idx, self.slots().len())),
    {
        match self.describe(idx, self.entries.len()) {
            Some(text) => text,
            None => Err(circle_error()),
        }
    }

    /// A listing of the whole pool, one line for each slot.
    ///
    /// A slot whose description fails or does not come to an end, as that
    /// of the unusable slot behind an eight-byte constant or of a constant
    /// that refers to itself, gets a placeholder line; the listing itself
    /// does not fail.
    pub fn dump(&self) -> (text: String)
        ensures
            text@ == dump_text(self.slots()),
    {
        let size = self.entries.len();
        let mut text = String::from_str("Constant pool: (size: ").concat(
            decimal_text(size as i128).as_str(),
        ).concat(")\n");
        let ghost heading = text@;
        let mut raw_idx: usize = 0;
        while raw_idx < size
            invariant
                size == self.slots().len(),
                raw_idx <= size,
                text@ == heading + dump_lines(self.slots(), raw_idx as nat),
            decreases size - raw_idx,
        {
            let position = raw_idx + 1;
            let index = #[verifier::truncate] (position as u16);
            assert(index == position % 0x1_0000) by (bit_vector)
                requires
                    index == position as u16,
            ;
            assert(index == line_index(raw_idx as int));
            let ghost before = text@;
            text.append("    ");
            text.append(decimal_text(index as i128).as_str());
            match self.describe(index, size) {
                Some(Ok(entry)) => {
                    text.append(", ");
                    text.append(entry.as_str());
                    text.append("\n");
                },
                _ => {
                    text.append(", ------ PhantomEntry ------\n");
                },
            }
            assert(text@ == before + dump_line(self.slots(), raw_idx as int));
            raw_idx = raw_idx + 1;
        }
        text
    }

    /// The constant with the given index.
    ///
    /// Index 0 and indices beyond the last slot are out of range; the index
    /// of the second slot of an eight-byte constant names a phantom entry.
    pub fn get_entry(&self, index: u16) -> (r: Result<&ConstantPoolEntry, ClassFileParserError>)
        ensures
            match entry_at(self.slots(), index) {
                Ok(entry) => r is Ok && *r->Ok_0 == entry,
                Err(error) => r is Err && r->Err_0 == error,
            },
    {
        if index == 0 || index as usize > self.entries.len() {
            return Err(ClassFileParserError::WrongConstantPoolIndexError(index));
        }
        let entry = &self.entries[index as usize - 1];
        match entry {
            ConstantPoolSlot::PhantomEntry => Err(
                ClassFileParserError::ConstantPoolIndexToPhantomEntryError(index),
            ),
            ConstantPoolSlot::Entry(entry) => Ok(entry),
        }
    }
}

} // verus!
