use vstd::prelude::*;
use vstd::std_specs::iter::IteratorSpec;
use std::str::Chars;
use itertools::Itertools;
use vstd::string::StringExecFns;
use crate::error::ClassFileParserError;

verus! {

broadcast use vstd::string::group_string_axioms;

/// The eight primitive kinds of the JVM.
#[derive(Debug, Clone, Copy, PartialEq, Eq, Structural)]
pub enum BaseType {
    Byte,
    Char,
    Double,
    Float,
    Int,
    Long,
    Short,
    Boolean,
}

/// The name under which a primitive kind is shown.
pub open spec fn base_type_name(base: BaseType) -> Seq<char> {
    match base {
        BaseType::Byte => "Byte"@,
        BaseType::Char => "Char"@,
        BaseType::Double => "Double"@,
        BaseType::Float => "Float"@,
        BaseType::Int => "Int"@,
        BaseType::Long => "Long"@,
        BaseType::Short => "Short"@,
        BaseType::Boolean => "Boolean"@,
    }
}

impl BaseType {
    /// The name of this kind, as it is written in the enumeration.
    pub fn name(&self) -> (name: &'static str)
        ensures
            name@ == base_type_name(*self),
    {
        match self {
            BaseType::Byte => "Byte",
            BaseType::Char => "Char",
            BaseType::Double => "Double",
            BaseType::Float => "Float",
            BaseType::Int => "Int",
            BaseType::Long => "Long",
            BaseType::Short => "Short",
            BaseType::Boolean => "Boolean",
        }
    }
}

/// The type of a field, a parameter or a returned value.
#[derive(Debug)]
pub enum Type {
    /// A primitive.
    Base(BaseType),
    /// An instance of the class with this fully qualified name.
    Object(String),
    /// An array with this element type.
    Array(Box<Type>),
}

/// Mathematical value of a [`Type`]: the same tree, with class names as
/// sequences of characters.
pub ghost enum TypeView {
    Base(BaseType),
    Object(Seq<char>),
    Array(Box<TypeView>),
}

impl Type {
    /// The mathematical value of this type.
    pub open spec fn model(&self) -> TypeView
        decreases self,
    {
        match self {
            Type::Base(base) => TypeView::Base(*base),
            Type::Object(name) => TypeView::Object(name@),
            Type::Array(element) => TypeView::Array(Box::new(element.model())),
        }
    }
}

impl Clone for Type {
    fn clone(&self) -> (copy: Self)
        ensures
            copy@ == self@,
        decreases self,
    {
        match self {
            Type::Base(base) => Type::Base(*base),
            Type::Object(name) => Type::Object(name.clone()),
            Type::Array(element) => Type::Array(Box::new((&**element).clone())),
        }
    }
}

impl PartialEq for Type {
    fn eq(&self, other: &Self) -> (equal: bool)
        decreases self,
    {
        match (self, other) {
            (Type::Base(a), Type::Base(b)) => *a == *b,
            (Type::Object(a), Type::Object(b)) => *a == *b,
            (Type::Array(a), Type::Array(b)) => (&**a).eq(&**b),
            _ => false,
        }
    }
}

impl vstd::std_specs::cmp::PartialEqSpecImpl for Type {
    open spec fn obeys_eq_spec() -> bool {
        true
    }

    /// Two types are equal where their mathematical values are.
    open spec fn eq_spec(&self, other: &Self) -> bool {
        self@ == other@
    }
}

impl View for Type {
    type V = TypeView;

    open spec fn view(&self) -> TypeView {
        self.model()
    }
}

/// How a type reads in a listing: a primitive by its name, an object by its
/// class name, an array as its element type followed by `[]`.
pub open spec fn type_text(shown: TypeView) -> Seq<char>
    decreases shown,
{
    match shown {
        TypeView::Base(base) => base_type_name(base),
        TypeView::Object(name) => name,
        TypeView::Array(element) => type_text(*element) + "[]"@,
    }
}

/// The primitive kind that a descriptor letter stands for.
pub open spec fn base_type_of(letter: char) -> Option<BaseType> {
    if letter == 'B' {
        Some(BaseType::Byte)
    } else if letter == 'C' {
        Some(BaseType::Char)
    } else if letter == 'D' {
        Some(BaseType::Double)
    } else if letter == 'F' {
        Some(BaseType::Float)
    } else if letter == 'I' {
        Some(BaseType::Int)
    } else if letter == 'J' {
        Some(BaseType::Long)
    } else if letter == 'S' {
        Some(BaseType::Short)
    } else if letter == 'Z' {
        Some(BaseType::Boolean)
    } else {
        None
    }
}

/// Number of characters at the start of `text` before the first `;`, or the
/// whole length where there is none.
pub open spec fn name_len(text: Seq<char>) -> nat
    decreases text.len(),
{
    if text.len() == 0 || text[0] == ';' {
        0
    } else {
        1 + name_len(text.drop_first())
    }
}

/// [`name_len`] stops at the first `;` and not before.
pub proof fn name_len_stops_at_semicolon(text: Seq<char>)
    ensures
        name_len(text) <= text.len(),
        name_len(text) < text.len() ==> text[name_len(text) as int] == ';',
        forall|i: int| 0 <= i < name_len(text) ==> text[i] != ';',
    decreases text.len(),
{
    if text.len() > 0 && text[0] != ';' {
        let rest = text.drop_first();
        name_len_stops_at_semicolon(rest);
        assert forall|i: int| 0 <= i < name_len(text) implies text[i] != ';' by {
            if i > 0 {
                assert(text[i] == rest[i - 1]);
            }
        }
    }
}

/// The grammar of type descriptors, read from the start of `text`: the type
/// that the text begins with and the text left after it, or `None` where no
/// type descriptor stands at the start.
///
/// One of the letters `B C D F I J S Z` is a primitive; `L`, a class name and
/// `;` is an object type; `[` followed by a type descriptor is an array.
pub open spec fn leading_type(text: Seq<char>) -> Option<(TypeView, Seq<char>)>
    decreases text.len(),
{
    if text.len() == 0 {
        None
    } else {
        let rest = text.drop_first();
        if text[0] == 'L' {
            let len = name_len(rest);
            if len < rest.len() {
                Some((TypeView::Object(rest.take(len as int)), rest.skip(len as int + 1)))
            } else {
                None
            }
        } else if text[0] == '[' {
            match leading_type(rest) {
                Some((element, after)) => Some((TypeView::Array(Box::new(element)), after)),
                None => None,
            }
        } else {
            match base_type_of(text[0]) {
                Some(base) => Some((TypeView::Base(base), rest)),
                None => None,
            }
        }
    }
}

/// The type that `text` spells as a whole: a type descriptor with nothing
/// after it.
pub open spec fn type_of_descriptor(text: Seq<char>) -> Option<TypeView> {
    match leading_type(text) {
        Some((parsed, rest)) => if rest.len() == 0 {
            Some(parsed)
        } else {
            None
        },
        None => None,
    }
}

/// The descriptor letter of a primitive kind.
pub open spec fn letter_of(base: BaseType) -> char {
    match base {
        BaseType::Byte => 'B',
        BaseType::Char => 'C',
        BaseType::Double => 'D',
        BaseType::Float => 'F',
        BaseType::Int => 'I',
        BaseType::Long => 'J',
        BaseType::Short => 'S',
        BaseType::Boolean => 'Z',
    }
}

/// The descriptor that spells a type.
pub open spec fn descriptor_of(spelled: TypeView) -> Seq<char>
    decreases spelled,
{
    match spelled {
        TypeView::Base(base) => seq![letter_of(base)],
        TypeView::Object(name) => seq!['L'] + name + seq![';'],
        TypeView::Array(element) => seq!['['] + descriptor_of(*element),
    }
}

/// No class name in the type holds a `;`, so that the type can be spelled
/// as a descriptor.
pub open spec fn spellable(spelled: TypeView) -> bool
    decreases spelled,
{
    match spelled {
        TypeView::Base(_) => true,
        TypeView::Object(name) => forall|i: int| 0 <= i < name.len() ==> name[i] != ';',
        TypeView::Array(element) => spellable(*element),
    }
}

/// A name without `;` that stands in front of a `;` is found whole.
pub proof fn name_len_of_terminated_name(name: Seq<char>, rest: Seq<char>)
    requires
        forall|i: int| 0 <= i < name.len() ==> name[i] != ';',
    ensures
        name_len(name + seq![';'] + rest) == name.len(),
    decreases name.len(),
{
    let text = name + seq![';'] + rest;
    if name.len() > 0 {
        let shorter = name.drop_first();
        assert(text.drop_first() == shorter + seq![';'] + rest);
        assert(text[0] == name[0]);
        assert forall|i: int| 0 <= i < shorter.len() implies shorter[i] != ';' by {
            assert(shorter[i] == name[i + 1]);
        }
        name_len_of_terminated_name(shorter, rest);
    } else {
        assert(text[0] == ';');
    }
}

/// Parsing undoes spelling: the descriptor of a type, with any text after
/// it, parses as that type and leaves that text.
pub proof fn parsing_inverts_spelling(spelled: TypeView, rest: Seq<char>)
    requires
        spellable(spelled),
    ensures
        leading_type(descriptor_of(spelled) + rest) == Some((spelled, rest)),
        type_of_descriptor(descriptor_of(spelled)) == Some(spelled),
{
    parsing_inverts_spelling_before(spelled, rest);
    parsing_inverts_spelling_before(spelled, Seq::empty());
    assert(descriptor_of(spelled) + Seq::<char>::empty() == descriptor_of(spelled));
}

/// The first half of [`parsing_inverts_spelling`], by induction on the
/// type.
proof fn parsing_inverts_spelling_before(spelled: TypeView, rest: Seq<char>)
    requires
        spellable(spelled),
    ensures
        leading_type(descriptor_of(spelled) + rest) == Some((spelled, rest)),
    decreases spelled,
{
    let text = descriptor_of(spelled) + rest;
    match spelled {
        TypeView::Base(base) => {
            assert(text[0] == letter_of(base));
            assert(text.drop_first() == rest);
        },
        TypeView::Object(name) => {
            let after = name + seq![';'] + rest;
            assert(text[0] == 'L');
            assert(text.drop_first() == after);
            name_len_of_terminated_name(name, rest);
            assert(after.take(name.len() as int) == name);
            assert(after.skip(name.len() as int + 1) == rest);
        },
        TypeView::Array(element) => {
            assert(text[0] == '[');
            assert(text.drop_first() == descriptor_of(*element) + rest);
            parsing_inverts_spelling_before(*element, rest);
        },
    }
}

/// A class name ends before the first `;`.
pub open spec fn is_name_char_spec(c: char) -> bool {
    c != ';'
}

/// True for every character that may stand inside a class name.
#[verifier::when_used_as_spec(is_name_char_spec)]
pub fn is_name_char(c: char) -> (inside: bool)
    ensures
        inside == is_name_char_spec(c),
{
    c != ';'
}

/// `Clone` for the character iterator of a string: the copy has the same
/// characters ahead of it as the iterator it was made from.
pub assume_specification<'a>[ <Chars<'a> as Clone>::clone ](chars: &Chars<'a>) -> (copy: Chars<'a>)
    ensures
        copy.remaining() == chars.remaining(),
;

/// Calls `itertools::Itertools::take_while_ref` on the cursor and collects
/// what it yields.
///
/// Trusted: the adaptor yields the characters up to the first one that
/// [`is_name_char`] rejects, and leaves the cursor in front of that
/// character (or at the end, where none is rejected).
#[verifier::external_body]
fn take_name(chars: &mut Chars) -> (name: String)
    ensures
        name@ == (*old(chars)).remaining().take(name_len((*old(chars)).remaining()) as int),
        (*final(chars)).remaining() == (*old(chars)).remaining().skip(
            name_len((*old(chars)).remaining()) as int
        ),
{
    chars.take_while_ref(|c| is_name_char(*c)).collect()
}

impl Type {
    /// The text of this type for a listing, such as `Int[]`.
    pub fn to_text(&self) -> (text: String)
        ensures
            text@ == type_text(self@),
        decreases self,
    {
        match self {
            Type::Base(base) => String::from_str(base.name()),
            Type::Object(class) => class.clone(),
            Type::Array(component_type) => (&**component_type).to_text().concat("[]"),
        }
    }

    /// Parses a whole type descriptor.
    ///
    /// Succeeds exactly on the texts that [`type_of_descriptor`] accepts;
    /// every other text comes back inside the error.
    pub fn parse(type_descriptor: &str) -> (r: Result<Type, ClassFileParserError>)
        ensures
            match type_of_descriptor(type_descriptor@) {
                Some(parsed) => r is Ok && r->Ok_0@ == parsed,
                None => r matches Err(ClassFileParserError::InvalidFiledTypeDescriptor(text))
                    && text@ == type_descriptor@,
            },
    {
        let mut chars = type_descriptor.chars();
        let descriptor = Self::parse_from(
            type_descriptor,
            &mut chars,
            Ghost(type_descriptor@.len()),
        )?;
        match chars.next() {
            None => Ok(descriptor),
            Some(_) => Err(
                ClassFileParserError::InvalidFiledTypeDescriptor(type_descriptor.to_owned()),
            ),
        }
    }

    /// Parses one type descriptor from the cursor and leaves the cursor
    /// behind it.
    ///
    /// `type_descriptor` is the text that an error reports; it need not be
    /// what the cursor runs over. `ahead` bounds the number of characters
    /// that the cursor still has, which bounds the depth of the descent.
    pub(crate) fn parse_from(
        type_descriptor: &str,
        chars: &mut Chars,
        Ghost(ahead): Ghost<nat>,
    ) -> (r: Result<Type, ClassFileParserError>)
        requires
            (*old(chars)).remaining().len() <= ahead,
        ensures
            match leading_type((*old(chars)).remaining()) {
                Some((parsed, rest)) => {
                    &&& r is Ok
                    &&& r->Ok_0@ == parsed
                    &&& (*final(chars)).remaining() == rest
                },
                None => r matches Err(ClassFileParserError::InvalidFiledTypeDescriptor(text))
                    && text@ == type_descriptor@,
            },
        decreases ahead,
    {
        let first_char = match chars.next() {
            Some(c) => c,
            None => {
                return Err(
                    ClassFileParserError::InvalidFiledTypeDescriptor(type_descriptor.to_owned()),
                );
            },
        };
        match first_char {
            'B' => Ok(Type::Base(BaseType::Byte)),
            'C' => Ok(Type::Base(BaseType::Char)),
            'D' => Ok(Type::Base(BaseType::Double)),
            'F' => Ok(Type::Base(BaseType::Float)),
            'I' => Ok(Type::Base(BaseType::Int)),
            'J' => Ok(Type::Base(BaseType::Long)),
            'S' => Ok(Type::Base(BaseType::Short)),
            'Z' => Ok(Type::Base(BaseType::Boolean)),
            'L' => {
                let ghost rest = (*chars).remaining();
                proof {
                    name_len_stops_at_semicolon(rest);
                }
                let class_name = take_name(chars);
                let ghost after_name = (*chars).remaining();
                match chars.next() {
                    Some(';') => {
                        assert(after_name.drop_first() == rest.skip(name_len(rest) as int + 1));
                        Ok(Type::Object(class_name))
                    },
                    _ => Err(
                        ClassFileParserError::InvalidFiledTypeDescriptor(
                            type_descriptor.to_owned(),
                        ),
                    ),
                }
            },
            '[' => {
                let component_type = Self::parse_from(
                    type_descriptor,
                    chars,
                    Ghost((ahead - 1) as nat),
                )?;
                Ok(Type::Array(Box::new(component_type)))
            },
            _ => Err(ClassFileParserError::InvalidFiledTypeDescriptor(type_descriptor.to_owned())),
        }
    }
}

} // verus!
