use vstd::prelude::*;
use vstd::std_specs::iter::IteratorSpec;
use vstd::string::StringExecFns;
use std::str::Chars;
use crate::error::ClassFileParserError;
use crate::text::{join, joined};
use crate::types::{Type, TypeView, leading_type, type_text};

verus! {

broadcast use vstd::string::group_string_axioms;

/// The signature of a method: the types of its parameters, in order, and the
/// type it returns, absent for `void`.
#[derive(Debug, PartialEq)]
pub struct MethodDescriptor {
    pub parameters: Vec<Type>,
    pub return_type: Option<Type>,
}

/// Mathematical value of a [`MethodDescriptor`].
pub ghost struct MethodDescriptorView {
    pub parameters: Seq<TypeView>,
    pub return_type: Option<TypeView>,
}

/// The mathematical values of the types, in order.
pub open spec fn type_views(types: Seq<Type>) -> Seq<TypeView> {
    types.map_values(|t: Type| t@)
}

impl View for MethodDescriptor {
    type V = MethodDescriptorView;

    open spec fn view(&self) -> MethodDescriptorView {
        MethodDescriptorView {
            parameters: type_views(self.parameters@),
            return_type: match self.return_type {
                Some(returned) => Some(returned@),
                None => None,
            },
        }
    }
}

impl Default for MethodDescriptor {
    /// The descriptor of a method without parameters that returns nothing.
    fn default() -> (descriptor: Self)
        ensures
            descriptor@.parameters.len() == 0,
            descriptor@.return_type is None,
    {
        MethodDescriptor { parameters: Vec::new(), return_type: None }
    }
}

impl Clone for MethodDescriptor {
    fn clone(&self) -> (copy: Self)
        ensures
            copy@ == self@,
    {
        let mut parameters: Vec<Type> = Vec::new();
        let mut i: usize = 0;
        while i < self.parameters.len()
            invariant
                i <= self.parameters@.len(),
                parameters@.len() == i,
                forall|j: int| 0 <= j < i ==> parameters@[j]@ == self.parameters@[j]@,
            decreases self.parameters@.len() - i,
        {
            parameters.push(self.parameters[i].clone());
            i = i + 1;
        }
        assert(type_views(parameters@) == type_views(self.parameters@));
        let return_type = match &self.return_type {
            Some(returned) => Some(returned.clone()),
            None => None,
        };
        MethodDescriptor { parameters, return_type }
    }
}

/// How a method descriptor reads in a listing: the parameters in brackets,
/// separated by a comma and a space, an arrow, and the returned type or
/// `void`.
pub open spec fn descriptor_text(shown: MethodDescriptorView) -> Seq<char> {
    "("@ + joined(shown.parameters.map_values(|t: TypeView| type_text(t)), ", "@) + ") -> "@
        + match shown.return_type {
        Some(returned) => type_text(returned),
        None => "void"@,
    }
}

/// Why a text is no method descriptor.
pub ghost enum DescriptorFault {
    /// The frame is wrong: no `(` at the start, no `)` before the end, no
    /// return descriptor, or characters after the `V` or the returned type.
    Method,
    /// A parameter or the returned type is no type descriptor.
    Type,
}

/// The parameter part of the grammar, read from the start of `text`: type
/// descriptors one after the other up to a `)`, which is left in place.
///
/// Gives the types and the text from the `)` on.
pub open spec fn leading_parameters(text: Seq<char>) -> Result<
    (Seq<TypeView>, Seq<char>),
    DescriptorFault,
>
    decreases text.len(),
{
    if text.len() == 0 {
        Err(DescriptorFault::Method)
    } else if text[0] == ')' {
        Ok((Seq::empty(), text))
    } else {
        match leading_type(text) {
            Some((first, rest)) => if rest.len() < text.len() {
                match leading_parameters(rest) {
                    Ok((others, after)) => Ok((seq![first] + others, after)),
                    Err(fault) => Err(fault),
                }
            } else {
                Err(DescriptorFault::Type)
            },
            None => Err(DescriptorFault::Type),
        }
    }
}

/// The return part of the grammar, which is all of `text`: the letter `V`
/// alone means `void`; any other text must be one type descriptor and
/// nothing more.
pub open spec fn returned_type(text: Seq<char>) -> Result<Option<TypeView>, DescriptorFault> {
    if text.len() == 0 {
        Err(DescriptorFault::Method)
    } else if text[0] == 'V' {
        if text.len() == 1 {
            Ok(None)
        } else {
            Err(DescriptorFault::Method)
        }
    } else {
        match leading_type(text) {
            Some((returned, rest)) => if rest.len() == 0 {
                Ok(Some(returned))
            } else {
                Err(DescriptorFault::Method)
            },
            None => Err(DescriptorFault::Type),
        }
    }
}

/// The grammar of method descriptors: `(`, the parameters, `)`, the return
/// part.
pub open spec fn method_descriptor_of(text: Seq<char>) -> Result<
    MethodDescriptorView,
    DescriptorFault,
> {
    if text.len() == 0 || text[0] != '(' {
        Err(DescriptorFault::Method)
    } else {
        match leading_parameters(text.drop_first()) {
            Ok((parameters, rest)) => match returned_type(rest.drop_first()) {
                Ok(return_type) => Ok(MethodDescriptorView { parameters, return_type }),
                Err(fault) => Err(fault),
            },
            Err(fault) => Err(fault),
        }
    }
}

/// The error value that reports `fault` for the descriptor `text`.
pub open spec fn reports(error: ClassFileParserError, fault: DescriptorFault, text: Seq<char>) -> bool {
    match fault {
        DescriptorFault::Method => error matches ClassFileParserError::InvalidMethodTypeDescriptor(
            reported,
        ) && reported@ == text,
        DescriptorFault::Type => error matches ClassFileParserError::InvalidFiledTypeDescriptor(
            reported,
        ) && reported@ == text,
    }
}

/// A type descriptor is at least one character long.
pub proof fn leading_type_consumes(text: Seq<char>)
    ensures
        leading_type(text) matches Some((_, rest)) ==> rest.len() < text.len(),
    decreases text.len(),
{
    if text.len() > 0 {
        let rest = text.drop_first();
        if text[0] == 'L' {
            crate::types::name_len_stops_at_semicolon(rest);
        } else if text[0] == '[' {
            leading_type_consumes(rest);
        }
    }
}

/// The parameters read so far, put in front of what is read from here on.
spec fn after_parameters(
    done: Seq<TypeView>,
    ahead: Result<(Seq<TypeView>, Seq<char>), DescriptorFault>,
) -> Result<(Seq<TypeView>, Seq<char>), DescriptorFault> {
    match ahead {
        Ok((others, after)) => Ok((done + others, after)),
        Err(fault) => Err(fault),
    }
}

/// Reading one parameter and then the others gives what reading them in one
/// go gives.
proof fn one_more_parameter(
    done: Seq<TypeView>,
    first: TypeView,
    ahead: Result<(Seq<TypeView>, Seq<char>), DescriptorFault>,
)
    ensures
        after_parameters(done.push(first), ahead) == after_parameters(
            done,
            after_parameters(seq![first], ahead),
        ),
{
    match ahead {
        Ok((others, after)) => {
            assert(done.push(first) + others == done + (seq![first] + others));
        },
        Err(_) => {},
    }
}

impl MethodDescriptor {
    /// Parses a method descriptor such as `(Ljava/lang/String;I)[J`.
    ///
    /// Succeeds exactly on the texts that [`method_descriptor_of`] accepts.
    /// A text with a broken frame is reported as an invalid method
    /// descriptor, one with a broken parameter or return type as an invalid
    /// field type descriptor; either error carries the whole text.
    pub fn parse(descriptor: &str) -> (r: Result<MethodDescriptor, ClassFileParserError>)
        ensures
            match method_descriptor_of(descriptor@) {
                Ok(parsed) => r is Ok && r->Ok_0@ == parsed,
                Err(fault) => r is Err && reports(r->Err_0, fault, descriptor@),
            },
    {
        let mut chars = descriptor.chars();
        match chars.next() {
            Some('(') => {
                let ghost ahead = descriptor@.len();
                let parameters = Self::parse_parameters(descriptor, &mut chars, Ghost(ahead))?;
                match chars.next() {
                    Some(')') => {
                        let return_type = Self::parse_return_type(
                            descriptor,
                            &mut chars,
                            Ghost(ahead),
                        )?;
                        Ok(MethodDescriptor { parameters, return_type })
                    },
                    _ => Err(
                        ClassFileParserError::InvalidMethodTypeDescriptor(descriptor.to_owned()),
                    ),
                }
            },
            _ => Err(ClassFileParserError::InvalidMethodTypeDescriptor(descriptor.to_owned())),
        }
    }

    /// Reads parameter types until the cursor stands in front of a `)`.
    ///
    /// `ahead` bounds the number of characters that the cursor still has.
    fn parse_parameters(descriptor: &str, chars: &mut Chars, Ghost(ahead): Ghost<nat>) -> (r:
        Result<Vec<Type>, ClassFileParserError>)
        requires
            (*old(chars)).remaining().len() <= ahead,
        ensures
            match leading_parameters((*old(chars)).remaining()) {
                Ok((parameters, rest)) => {
                    &&& r is Ok
                    &&& type_views(r->Ok_0@) == parameters
                    &&& (*final(chars)).remaining() == rest
                    &&& 0 < rest.len() <= ahead
                    &&& rest[0] == ')'
                },
                Err(fault) => r is Err && reports(r->Err_0, fault, descriptor@),
            },
    {
        let mut parameters: Vec<Type> = Vec::new();
        let ghost start = (*chars).remaining();
        let ghost mut left: nat = ahead;
        loop
            invariant
                start == (*old(chars)).remaining(),
                (*chars).remaining().len() <= left <= ahead,
                leading_parameters(start) == after_parameters(
                    type_views(parameters@),
                    leading_parameters((*chars).remaining()),
                ),
            decreases left,
        {
            let ghost before = (*chars).remaining();
            let ghost done = type_views(parameters@);
            match chars.clone().next() {
                Some(')') => {
                    assert(done + Seq::<TypeView>::empty() == done);
                    return Ok(parameters);
                },
                Some(_) => {
                    proof {
                        leading_type_consumes(before);
                    }
                    let param = Type::parse_from(descriptor, chars, Ghost(left))?;
                    parameters.push(param);
                    proof {
                        assert(type_views(parameters@) == done.push(param@));
                        one_more_parameter(
                            done,
                            param@,
                            leading_parameters((*chars).remaining()),
                        );
                        left = (left - 1) as nat;
                    }
                },
                None => {
                    return Err(
                        ClassFileParserError::InvalidMethodTypeDescriptor(descriptor.to_owned()),
                    );
                },
            }
        }
    }

    /// Reads the return part, which must take up all that is left.
    ///
    /// `ahead` bounds the number of characters that the cursor still has.
    fn parse_return_type(descriptor: &str, chars: &mut Chars, Ghost(ahead): Ghost<nat>) -> (r:
        Result<Option<Type>, ClassFileParserError>)
        requires
            (*old(chars)).remaining().len() <= ahead,
        ensures
            match returned_type((*old(chars)).remaining()) {
                Ok(Some(returned)) => r matches Ok(Some(parsed)) && parsed@ == returned,
                Ok(None) => r matches Ok(None),
                Err(fault) => r is Err && reports(r->Err_0, fault, descriptor@),
            },
    {
        match chars.clone().next() {
            Some('V') => {
                let _ = chars.next();
                if chars.next().is_none() {
                    Ok(None)
                } else {
                    Err(ClassFileParserError::InvalidMethodTypeDescriptor(descriptor.to_owned()))
                }
            },
            Some(_) => {
                let return_type = Some(Type::parse_from(descriptor, chars, Ghost(ahead))?);
                if chars.next().is_none() {
                    Ok(return_type)
                } else {
                    Err(ClassFileParserError::InvalidMethodTypeDescriptor(descriptor.to_owned()))
                }
            },
            _ => Err(ClassFileParserError::InvalidMethodTypeDescriptor(descriptor.to_owned())),
        }
    }

    /// The text of this descriptor for a listing, such as
    /// `(java/lang/String, Int) -> Long[]`.
    pub fn to_text(&self) -> (text: String)
        ensures
            text@ == descriptor_text(self@),
    {
        let mut shown: Vec<String> = Vec::new();
        let mut i: usize = 0;
        let ghost texts = self@.parameters.map_values(|t: TypeView| type_text(t));
        while i < self.parameters.len()
            invariant
                i <= self.parameters@.len(),
                shown@.len() == i,
                forall|j: int| 0 <= j < i ==> shown@[j]@ == type_text(self.parameters@[j]@),
            decreases self.parameters@.len() - i,
        {
            shown.push(self.parameters[i].to_text());
            i = i + 1;
        }
        assert(crate::text::texts_of(shown@) == texts);
        let list = join(&shown, ", ");
        let text = String::from_str("(").concat(list.as_str()).concat(") -> ");
        match &self.return_type {
            Some(field_type) => text.concat(field_type.to_text().as_str()),
            None => text.concat("void"),
        }
    }

    /// Number of parameters.
    pub fn num_arguments(&self) -> (count: usize)
        ensures
            count == self@.parameters.len(),
    {
        self.parameters.len()
    }
}

} // verus!
