use vstd::prelude::*;
use vstd::string::StringExecFns;

verus! {

/// An attribute that is kept as it was read: its name and its raw bytes.
#[derive(Debug, PartialEq)]
pub struct Attribute {
    pub name: String,
    pub bytes: Vec<u8>,
}

/// Mathematical value of an [`Attribute`].
pub ghost struct AttributeView {
    pub name: Seq<char>,
    pub bytes: Seq<u8>,
}

impl View for Attribute {
    type V = AttributeView;

    open spec fn view(&self) -> AttributeView {
        AttributeView { name: self.name@, bytes: self.bytes@ }
    }
}

/// The mathematical values of the attributes, in order.
pub open spec fn attribute_views(attributes: Seq<Attribute>) -> Seq<AttributeView> {
    attributes.map_values(|attribute: Attribute| attribute@)
}

/// The first attribute of the list that has the given name.
pub open spec fn first_named(attributes: Seq<AttributeView>, name: Seq<char>) -> Option<
    AttributeView,
>
    decreases attributes.len(),
{
    if attributes.len() == 0 {
        None
    } else if attributes[0].name == name {
        Some(attributes[0])
    } else {
        first_named(attributes.drop_first(), name)
    }
}

/// Finds the first attribute of the list that has the given name.
pub fn find_attribute<'a>(attributes: &'a Vec<Attribute>, name: &str) -> (found: Option<
    &'a Attribute,
>)
    ensures
        match first_named(attribute_views(attributes@), name@) {
            Some(first) => found is Some && found->0@ == first,
            None => found is None,
        },
{
    let wanted = String::from_str(name);
    let mut i: usize = 0;
    let ghost all = attribute_views(attributes@);
    assert(all.skip(0) == all);
    while i < attributes.len()
        invariant
            i <= attributes@.len(),
            all == attribute_views(attributes@),
            wanted@ == name@,
            first_named(all, name@) == first_named(all.skip(i as int), name@),
        decreases attributes@.len() - i,
    {
        let attribute = &attributes[i];
        assert(all.skip(i as int)[0] == attribute@);
        if attribute.name == wanted {
            return Some(attribute);
        }
        assert(all.skip(i as int).drop_first() == all.skip(i + 1));
        i = i + 1;
    }
    None
}

} // verus!
