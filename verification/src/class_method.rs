use vstd::prelude::*;
use crate::attribute::Attribute;
use crate::descriptor::MethodDescriptor;
use crate::exception_table::ExceptionTable;
use crate::flags::{MethodFlags, holds_all};
use crate::line_number_table::LineNumberTable;
use crate::types::{BaseType, Type, TypeView};

verus! {

/// A method of a class.
pub struct ClassFileMethod {
    pub flags: MethodFlags,
    pub name: String,
    /// The descriptor as the class file spells it, such as `(I)J`.
    pub type_descriptor: String,
    /// The descriptor, parsed.
    pub parsed_type_descriptor: MethodDescriptor,
    /// The attributes that are kept as raw bytes.
    pub attributes: Vec<Attribute>,
    /// The code; absent for an abstract or native method.
    pub code: Option<ClassFileMethodCode>,
    pub deprecated: bool,
    /// The names of the exception classes that the method declares.
    pub thrown_exceptions: Vec<String>,
}

/// The JVM computes with `int` where a value is declared as one of these
/// kinds.
pub open spec fn computed_as_int(base: BaseType) -> bool {
    base == BaseType::Int || base == BaseType::Short || base == BaseType::Char || base
        == BaseType::Byte || base == BaseType::Boolean
}

/// A method that is declared to return `declared` hands back a value of
/// type `expected`: the kinds that the JVM computes as `int` all hand back
/// an `int`, every other type hands back itself, and `void` nothing.
pub open spec fn hands_back(declared: Option<TypeView>, expected: TypeView) -> bool {
    match declared {
        Some(TypeView::Base(base)) => if computed_as_int(base) {
            expected == TypeView::Base(BaseType::Int)
        } else {
            expected == TypeView::Base(base)
        },
        Some(other) => expected == other,
        None => false,
    }
}

impl ClassFileMethod {
    /// The method belongs to the class, not to its instances.
    pub fn is_static(&self) -> (is_static: bool)
        ensures
            is_static == holds_all(self.flags@, MethodFlags::STATIC),
    {
        self.flags.contains(MethodFlags::STATIC)
    }

    /// The method is implemented outside the JVM.
    pub fn is_native(&self) -> (is_native: bool)
        ensures
            is_native == holds_all(self.flags@, MethodFlags::NATIVE),
    {
        self.flags.contains(MethodFlags::NATIVE)
    }

    /// The method returns nothing.
    pub fn is_void(&self) -> (is_void: bool)
        ensures
            is_void == (self.parsed_type_descriptor@.return_type is None),
    {
        self.parsed_type_descriptor.return_type.is_none()
    }

    /// Tells whether a call of the method leaves a value of `expected_type`.
    pub fn returns_type(&self, expected_type: Type) -> (same: bool)
        ensures
            same == hands_back(self.parsed_type_descriptor@.return_type, expected_type@),
    {
        match &self.parsed_type_descriptor.return_type {
            Some(Type::Base(BaseType::Int))
            | Some(Type::Base(BaseType::Short))
            | Some(Type::Base(BaseType::Char))
            | Some(Type::Base(BaseType::Byte))
            | Some(Type::Base(BaseType::Boolean)) => Type::Base(BaseType::Int) == expected_type,
            Some(declared) => *declared == expected_type,
            None => false,
        }
    }
}

/// The code of a method.
#[derive(Debug, PartialEq)]
pub struct ClassFileMethodCode {
    /// Greatest depth that the operand stack reaches.
    pub max_stack: u16,
    /// Number of local variables, parameters included.
    pub max_locals: u16,
    /// The bytecode.
    pub code: Vec<u8>,
    pub exception_table: ExceptionTable,
    pub line_number_table: Option<LineNumberTable>,
    /// The attributes of the code that are kept as raw bytes.
    pub attributes: Vec<Attribute>,
}

impl Default for ClassFileMethodCode {
    fn default() -> (code: Self)
        ensures
            code.max_stack == 0,
            code.max_locals == 0,
            code.code@.len() == 0,
            code.exception_table@.len() == 0,
            code.line_number_table is None,
            code.attributes@.len() == 0,
    {
        ClassFileMethodCode {
            max_stack: 0,
            max_locals: 0,
            code: Vec::new(),
            exception_table: ExceptionTable::default(),
            line_number_table: None,
            attributes: Vec::new(),
        }
    }
}

} // verus!
