use vstd::prelude::*;
use vstd::string::StringExecFns;
use crate::text::{join, joined, texts_of};

verus! {

/// Every bit of `mask` is set in `bits`.
pub open spec fn holds_all(bits: u16, mask: u16) -> bool {
    bits & mask == mask
}

/// The name of a flag, where all its bits are set, as a list of one or none.
pub open spec fn named(bits: u16, mask: u16, name: Seq<char>) -> Seq<Seq<char>> {
    if holds_all(bits, mask) {
        seq![name]
    } else {
        Seq::empty()
    }
}

/// Appends the name of a flag to the list where the flag is set.
fn push_if_set(names: &mut Vec<String>, bits: u16, mask: u16, name: &str)
    ensures
        texts_of(final(names)@) == texts_of(old(names)@) + named(bits, mask, name@),
{
    if bits & mask == mask {
        names.push(String::from_str(name));
        assert(texts_of(names@) == texts_of(old(names)@) + seq![name@]);
    } else {
        assert(texts_of(names@) == texts_of(old(names)@) + Seq::<Seq<char>>::empty());
    }
}

/// The names of the class flags that are set, in the order of their bits.
pub open spec fn class_flag_names(bits: u16) -> Seq<Seq<char>> {
    named(bits, ClassAccessFlags::PUBLIC, "PUBLIC"@) + named(
        bits,
        ClassAccessFlags::FINAL,
        "FINAL"@,
    ) + named(bits, ClassAccessFlags::SUPER, "SUPER"@) + named(
        bits,
        ClassAccessFlags::INTERFACE,
        "INTERFACE"@,
    ) + named(bits, ClassAccessFlags::ABSTRACT, "ABSTRACT"@) + named(
        bits,
        ClassAccessFlags::SYNTHETIC,
        "SYNTHETIC"@,
    ) + named(bits, ClassAccessFlags::ANNOTATION, "ANNOTATION"@) + named(
        bits,
        ClassAccessFlags::ENUM,
        "ENUM"@,
    )
}

/// The names of the field flags that are set, in the order of their bits.
pub open spec fn field_flag_names(bits: u16) -> Seq<Seq<char>> {
    named(bits, FieldFlags::PUBLIC, "PUBLIC"@) + named(bits, FieldFlags::PRIVATE, "PRIVATE"@)
        + named(bits, FieldFlags::PROTECTED, "PROTECTED"@) + named(
        bits,
        FieldFlags::STATIC,
        "STATIC"@,
    ) + named(bits, FieldFlags::FINAL, "FINAL"@) + named(bits, FieldFlags::VOLATILE, "VOLATILE"@)
        + named(bits, FieldFlags::TRANSIENT, "TRANSIENT"@) + named(
        bits,
        FieldFlags::SYNTHETIC,
        "SYNTHETIC"@,
    ) + named(bits, FieldFlags::ENUM, "ENUM"@)
}

/// The names of the method flags that are set, in the order of their bits.
pub open spec fn method_flag_names(bits: u16) -> Seq<Seq<char>> {
    named(bits, MethodFlags::PUBLIC, "PUBLIC"@) + named(bits, MethodFlags::PRIVATE, "PRIVATE"@)
        + named(bits, MethodFlags::PROTECTED, "PROTECTED"@) + named(
        bits,
        MethodFlags::STATIC,
        "STATIC"@,
    ) + named(bits, MethodFlags::FINAL, "FINAL"@) + named(
        bits,
        MethodFlags::SYNCHRONIZED,
        "SYNCHRONIZED"@,
    ) + named(bits, MethodFlags::BRIDGE, "BRIDGE"@) + named(
        bits,
        MethodFlags::VARARGS,
        "VARARGS"@,
    ) + named(bits, MethodFlags::NATIVE, "NATIVE"@) + named(
        bits,
        MethodFlags::ABSTRACT,
        "ABSTRACT"@,
    ) + named(bits, MethodFlags::STRICT, "STRICT"@) + named(
        bits,
        MethodFlags::SYNTHETIC,
        "SYNTHETIC"@,
    )
}

/// Access flags of a class.
#[derive(Debug, Clone, Copy, PartialEq, Eq, Structural)]
pub struct ClassAccessFlags {
    bits: u16,
}

impl ClassAccessFlags {
    /// Visible everywhere.
    pub const PUBLIC: u16 = 0x0001;

    /// Not to be extended, overridden or assigned again.
    pub const FINAL: u16 = 0x0010;

    /// Superclass methods are looked up anew on `invokespecial`.
    pub const SUPER: u16 = 0x0020;

    /// An interface, not a class.
    pub const INTERFACE: u16 = 0x0200;

    /// Without an implementation.
    pub const ABSTRACT: u16 = 0x0400;

    /// Made by the compiler, not written in the source.
    pub const SYNTHETIC: u16 = 0x1000;

    /// An annotation interface.
    pub const ANNOTATION: u16 = 0x2000;

    /// An enum class, or an element of one.
    pub const ENUM: u16 = 0x4000;

    /// The bits of all the flags that a class can have.
    pub const ALL: u16 = 0x7631;

    /// The flags as the class file stores them.
    pub closed spec fn view(&self) -> u16 {
        self.bits
    }

    /// No flag.
    pub fn empty() -> (flags: Self)
        ensures
            flags@ == 0,
    {
        ClassAccessFlags { bits: 0 }
    }

    /// The flags among `bits` that a class can have; other bits are dropped.
    pub fn from_bits_truncate(bits: u16) -> (flags: Self)
        ensures
            flags@ == bits & Self::ALL,
    {
        ClassAccessFlags { bits: bits & Self::ALL }
    }

    /// The flags that `bits` spell, unless a bit is set that is no flag of
    /// a class.
    pub fn from_bits(bits: u16) -> (flags: Option<Self>)
        ensures
            holds_all(Self::ALL, bits) ==> flags is Some && flags->0@ == bits,
            !holds_all(Self::ALL, bits) ==> flags is None,
    {
        if Self::ALL & bits == bits {
            Some(ClassAccessFlags { bits })
        } else {
            None
        }
    }

    /// The flags as the class file stores them.
    pub fn bits(&self) -> (bits: u16)
        ensures
            bits == self@,
    {
        self.bits
    }

    /// True where every flag of `mask` is set.
    pub fn contains(&self, mask: u16) -> (all: bool)
        ensures
            all == holds_all(self@, mask),
    {
        self.bits & mask == mask
    }
    /// The names of the flags that are set, separated by ` | `.
    pub fn names(&self) -> (text: String)
        ensures
            text@ == joined(class_flag_names(self@), " | "@),
    {
        let mut names: Vec<String> = Vec::new();
        assert(texts_of(names@) == Seq::<Seq<char>>::empty());
        push_if_set(&mut names, self.bits, Self::PUBLIC, "PUBLIC");
        push_if_set(&mut names, self.bits, Self::FINAL, "FINAL");
        push_if_set(&mut names, self.bits, Self::SUPER, "SUPER");
        push_if_set(&mut names, self.bits, Self::INTERFACE, "INTERFACE");
        push_if_set(&mut names, self.bits, Self::ABSTRACT, "ABSTRACT");
        push_if_set(&mut names, self.bits, Self::SYNTHETIC, "SYNTHETIC");
        push_if_set(&mut names, self.bits, Self::ANNOTATION, "ANNOTATION");
        push_if_set(&mut names, self.bits, Self::ENUM, "ENUM");
        join(&names, " | ")
    }
}

impl Default for ClassAccessFlags {
    fn default() -> (flags: Self)
        ensures
            flags@ == 0,
    {
        ClassAccessFlags::empty()
    }
}

/// Access flags of a field.
#[derive(Debug, Clone, Copy, PartialEq, Eq, Structural)]
pub struct FieldFlags {
    bits: u16,
}

impl FieldFlags {
    /// Visible everywhere.
    pub const PUBLIC: u16 = 0x0001;

    /// Visible in its class only.
    pub const PRIVATE: u16 = 0x0002;

    /// Visible in subclasses and in the package.
    pub const PROTECTED: u16 = 0x0004;

    /// Belongs to the class, not to its instances.
    pub const STATIC: u16 = 0x0008;

    /// Not to be extended, overridden or assigned again.
    pub const FINAL: u16 = 0x0010;

    /// Not cached.
    pub const VOLATILE: u16 = 0x0040;

    /// Left out when the object is written out.
    pub const TRANSIENT: u16 = 0x0080;

    /// Made by the compiler, not written in the source.
    pub const SYNTHETIC: u16 = 0x1000;

    /// An enum class, or an element of one.
    pub const ENUM: u16 = 0x4000;

    /// The bits of all the flags that a field can have.
    pub const ALL: u16 = 0x50df;

    /// The flags as the class file stores them.
    pub closed spec fn view(&self) -> u16 {
        self.bits
    }

    /// No flag.
    pub fn empty() -> (flags: Self)
        ensures
            flags@ == 0,
    {
        FieldFlags { bits: 0 }
    }

    /// The flags among `bits` that a field can have; other bits are dropped.
    pub fn from_bits_truncate(bits: u16) -> (flags: Self)
        ensures
            flags@ == bits & Self::ALL,
    {
        FieldFlags { bits: bits & Self::ALL }
    }

    /// The flags that `bits` spell, unless a bit is set that is no flag of
    /// a field.
    pub fn from_bits(bits: u16) -> (flags: Option<Self>)
        ensures
            holds_all(Self::ALL, bits) ==> flags is Some && flags->0@ == bits,
            !holds_all(Self::ALL, bits) ==> flags is None,
    {
        if Self::ALL & bits == bits {
            Some(FieldFlags { bits })
        } else {
            None
        }
    }

    /// The flags as the class file stores them.
    pub fn bits(&self) -> (bits: u16)
        ensures
            bits == self@,
    {
        self.bits
    }

    /// True where every flag of `mask` is set.
    pub fn contains(&self, mask: u16) -> (all: bool)
        ensures
            all == holds_all(self@, mask),
    {
        self.bits & mask == mask
    }
    /// The names of the flags that are set, separated by ` | `.
    pub fn names(&self) -> (text: String)
        ensures
            text@ == joined(field_flag_names(self@), " | "@),
    {
        let mut names: Vec<String> = Vec::new();
        assert(texts_of(names@) == Seq::<Seq<char>>::empty());
        push_if_set(&mut names, self.bits, Self::PUBLIC, "PUBLIC");
        push_if_set(&mut names, self.bits, Self::PRIVATE, "PRIVATE");
        push_if_set(&mut names, self.bits, Self::PROTECTED, "PROTECTED");
        push_if_set(&mut names, self.bits, Self::STATIC, "STATIC");
        push_if_set(&mut names, self.bits, Self::FINAL, "FINAL");
        push_if_set(&mut names, self.bits, Self::VOLATILE, "VOLATILE");
        push_if_set(&mut names, self.bits, Self::TRANSIENT, "TRANSIENT");
        push_if_set(&mut names, self.bits, Self::SYNTHETIC, "SYNTHETIC");
        push_if_set(&mut names, self.bits, Self::ENUM, "ENUM");
        join(&names, " | ")
    }
}

impl Default for FieldFlags {
    fn default() -> (flags: Self)
        ensures
            flags@ == 0,
    {
        FieldFlags::empty()
    }
}

/// Access flags of a method.
#[derive(Debug, Clone, Copy, PartialEq, Eq, Structural)]
pub struct MethodFlags {
    bits: u16,
}

impl MethodFlags {
    /// Visible everywhere.
    pub const PUBLIC: u16 = 0x0001;

    /// Visible in its class only.
    pub const PRIVATE: u16 = 0x0002;

    /// Visible in subclasses and in the package.
    pub const PROTECTED: u16 = 0x0004;

    /// Belongs to the class, not to its instances.
    pub const STATIC: u16 = 0x0008;

    /// Not to be extended, overridden or assigned again.
    pub const FINAL: u16 = 0x0010;

    /// Holds a monitor while it runs.
    pub const SYNCHRONIZED: u16 = 0x0020;

    /// A bridge made by the compiler.
    pub const BRIDGE: u16 = 0x0040;

    /// Takes a variable number of arguments.
    pub const VARARGS: u16 = 0x0080;

    /// Implemented outside the JVM.
    pub const NATIVE: u16 = 0x0100;

    /// Without an implementation.
    pub const ABSTRACT: u16 = 0x0400;

    /// Computes floating point strictly.
    pub const STRICT: u16 = 0x0800;

    /// Made by the compiler, not written in the source.
    pub const SYNTHETIC: u16 = 0x1000;

    /// The bits of all the flags that a method can have.
    pub const ALL: u16 = 0x1dff;

    /// The flags as the class file stores them.
    pub closed spec fn view(&self) -> u16 {
        self.bits
    }

    /// No flag.
    pub fn empty() -> (flags: Self)
        ensures
            flags@ == 0,
    {
        MethodFlags { bits: 0 }
    }

    /// The flags among `bits` that a method can have; other bits are
    /// dropped.
    pub fn from_bits_truncate(bits: u16) -> (flags: Self)
        ensures
            flags@ == bits & Self::ALL,
    {
        MethodFlags { bits: bits & Self::ALL }
    }

    /// The flags that `bits` spell, unless a bit is set that is no flag of
    /// a method.
    pub fn from_bits(bits: u16) -> (flags: Option<Self>)
        ensures
            holds_all(Self::ALL, bits) ==> flags is Some && flags->0@ == bits,
            !holds_all(Self::ALL, bits) ==> flags is None,
    {
        if Self::ALL & bits == bits {
            Some(MethodFlags { bits })
        } else {
            None
        }
    }

    /// The flags as the class file stores them.
    pub fn bits(&self) -> (bits: u16)
        ensures
            bits == self@,
    {
        self.bits
    }

    /// True where every flag of `mask` is set.
    pub fn contains(&self, mask: u16) -> (all: bool)
        ensures
            all == holds_all(self@, mask),
    {
        self.bits & mask == mask
    }
    /// The names of the flags that are set, separated by ` | `.
    pub fn names(&self) -> (text: String)
        ensures
            text@ == joined(method_flag_names(self@), " | "@),
    {
        let mut names: Vec<String> = Vec::new();
        assert(texts_of(names@) == Seq::<Seq<char>>::empty());
        push_if_set(&mut names, self.bits, Self::PUBLIC, "PUBLIC");
        push_if_set(&mut names, self.bits, Self::PRIVATE, "PRIVATE");
        push_if_set(&mut names, self.bits, Self::PROTECTED, "PROTECTED");
        push_if_set(&mut names, self.bits, Self::STATIC, "STATIC");
        push_if_set(&mut names, self.bits, Self::FINAL, "FINAL");
        push_if_set(&mut names, self.bits, Self::SYNCHRONIZED, "SYNCHRONIZED");
        push_if_set(&mut names, self.bits, Self::BRIDGE, "BRIDGE");
        push_if_set(&mut names, self.bits, Self::VARARGS, "VARARGS");
        push_if_set(&mut names, self.bits, Self::NATIVE, "NATIVE");
        push_if_set(&mut names, self.bits, Self::ABSTRACT, "ABSTRACT");
        push_if_set(&mut names, self.bits, Self::STRICT, "STRICT");
        push_if_set(&mut names, self.bits, Self::SYNTHETIC, "SYNTHETIC");
        join(&names, " | ")
    }
}

impl Default for MethodFlags {
    fn default() -> (flags: Self)
        ensures
            flags@ == 0,
    {
        MethodFlags::empty()
    }
}

} // verus!
