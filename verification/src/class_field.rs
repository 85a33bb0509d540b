use vstd::prelude::*;
use crate::flags::FieldFlags;
use crate::types::{Type, TypeView};

verus! {

/// A field of a class.
pub struct ClassFileField {
    pub flags: FieldFlags,
    pub name: String,
    pub type_descriptor: Type,
    /// The value of a field that is declared as a constant.
    pub constant_value: Option<FieldConstantValue>,
    pub deprecated: bool,
}

/// The value of a constant field.
#[derive(Debug, PartialEq)]
pub enum FieldConstantValue {
    Int(i32),
    /// A single-precision value, by its bit pattern.
    Float(u32),
    Long(i64),
    /// A double-precision value, by its bit pattern.
    Double(u64),
    String(String),
}

/// Mathematical value of a [`FieldConstantValue`].
pub ghost enum FieldConstantValueView {
    Int(i32),
    Float(u32),
    Long(i64),
    Double(u64),
    String(Seq<char>),
}

impl View for FieldConstantValue {
    type V = FieldConstantValueView;

    open spec fn view(&self) -> FieldConstantValueView {
        match self {
            FieldConstantValue::Int(n) => FieldConstantValueView::Int(*n),
            FieldConstantValue::Float(bits) => FieldConstantValueView::Float(*bits),
            FieldConstantValue::Long(n) => FieldConstantValueView::Long(*n),
            FieldConstantValue::Double(bits) => FieldConstantValueView::Double(*bits),
            FieldConstantValue::String(text) => FieldConstantValueView::String(text@),
        }
    }
}

/// Mathematical value of a [`ClassFileField`].
pub ghost struct ClassFileFieldView {
    pub flags: u16,
    pub name: Seq<char>,
    pub type_descriptor: TypeView,
    pub constant_value: Option<FieldConstantValueView>,
    pub deprecated: bool,
}

impl View for ClassFileField {
    type V = ClassFileFieldView;

    open spec fn view(&self) -> ClassFileFieldView {
        ClassFileFieldView {
            flags: self.flags@,
            name: self.name@,
            type_descriptor: self.type_descriptor@,
            constant_value: match self.constant_value {
                Some(value) => Some(value@),
                None => None,
            },
            deprecated: self.deprecated,
        }
    }
}

/// The mathematical values of the fields, in order.
pub open spec fn field_views(fields: Seq<ClassFileField>) -> Seq<ClassFileFieldView> {
    fields.map_values(|field: ClassFileField| field@)
}

} // verus!
