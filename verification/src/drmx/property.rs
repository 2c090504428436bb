//! The properties of a DRM object.

use crate::search;
use vstd::prelude::*;

verus! {

/// A property of a DRM object, as it was read.
#[derive(Debug)]
pub struct NamedProperty {
    /// The handle of the property.
    pub id: u32,
    /// The name of the property, or `None` where it could not be read.
    pub name: Option<String>,
    /// The value that the object has for the property.
    pub value: u64,
}

impl NamedProperty {
    /// Whether the name of the property is known to be `name`.
    pub open spec fn is_named(self, name: Seq<char>) -> bool {
        self.name matches Some(n) && n@ == name
    }

    pub fn has_name(&self, name: &str) -> (r: bool)
        ensures
            r == self.is_named(name@),
    {
        match &self.name {
            Some(n) => *n == name.to_owned(),
            None => false,
        }
    }
}

/// The first property with the name `name`.
pub open spec fn first_named(properties: Seq<NamedProperty>, name: Seq<char>) -> Option<
    NamedProperty,
> {
    match search::first_where(properties, |p: NamedProperty| p.is_named(name)) {
        Some(i) => Some(properties[i]),
        None => None,
    }
}

pub fn find_named<'a>(properties: &'a Vec<NamedProperty>, name: &str) -> (r: Option<
    &'a NamedProperty,
>)
    ensures
        match r {
            Some(p) => first_named(properties@, name@) == Some(*p),
            None => first_named(properties@, name@) is None,
        },
{
    let ghost wanted = |p: NamedProperty| p.is_named(name@);
    proof {
        search::first_where_is_first(properties@, wanted);
    }
    let mut i: usize = 0;
    while i < properties.len()
        invariant
            i <= properties@.len(),
            wanted == (|p: NamedProperty| p.is_named(name@)),
            forall|j: int| 0 <= j < i ==> !wanted(#[trigger] properties@[j]),
        decreases properties@.len() - i,
    {
        if properties[i].has_name(name) {
            proof {
                search::first_where_is_first(properties@, wanted);
                assert(wanted(properties@[i as int]));
            }
            return Some(&properties[i]);
        }
        i = i + 1;
    }
    None
}

/// A property is found by its name where some property has the name, and it is
/// the first of them. One whose name could not be read is never found.
pub proof fn the_first_property_of_a_name_is_found(
    properties: Seq<NamedProperty>,
    name: Seq<char>,
    place: int,
)
    ensures
        ({
            let here = |i: int| properties[i].name is Some && properties[i].name->Some_0@ == name;
            &&& 0 <= place < properties.len() && here(place) && (forall|j: int|
                0 <= j < place ==> !#[trigger] here(j)) ==> first_named(properties, name) == Some(
                properties[place],
            )
            &&& (forall|j: int| 0 <= j < properties.len() ==> !#[trigger] here(j))
                ==> first_named(properties, name) is None
        }),
{
    let here = |i: int| properties[i].name is Some && properties[i].name->Some_0@ == name;
    search::first_where_is_first(properties, |p: NamedProperty| p.is_named(name));
    if let Some(i) = search::first_where(properties, |p: NamedProperty| p.is_named(name)) {
        assert(properties[i].is_named(name));
        assert(here(i));
        if 0 <= place < properties.len() && here(place) && (forall|j: int|
            0 <= j < place ==> !#[trigger] here(j)) {
            assert(properties[place].is_named(name));
        }
    } else {
        assert(0 <= place < properties.len() ==> !properties[place].is_named(name));
    }
}

} // verus!
