//! The built-in component types: their names and how many children each
//! accepts.

use vstd::prelude::*;
use crate::json::{json_entries, json_object_of, value_as_object, JsonObject};

verus! {

/// A component that draws its single child in a shrunken copy of its zone.
pub struct Spacer {}

/// A component that lays its children out side by side along one direction.
pub struct Split {
    pub spacer: Spacer,
}

/// A component that draws a titled frame around its single child.
pub struct GroupingBox {}

impl Spacer {
    /// A spacer wraps exactly one child.
    pub fn max_children(&self) -> (r: Option<u32>)
        ensures
            r == Some(1u32),
    {
        Some(1)
    }

    /// The name under which screen descriptions refer to this component.
    pub fn get_name(&self) -> (r: &'static str)
        ensures
            r@ == "Spacer"@,
    {
        "Spacer"
    }
}

impl Split {
    /// A split takes any number of children.
    pub fn max_children(&self) -> (r: Option<u32>)
        ensures
            r == None::<u32>,
    {
        None
    }

    /// The name under which screen descriptions refer to this component.
    pub fn get_name(&self) -> (r: &'static str)
        ensures
            r@ == "Split"@,
    {
        "Split"
    }
}

impl GroupingBox {
    /// A grouping box frames exactly one child.
    pub fn max_children(&self) -> (r: Option<u32>)
        ensures
            r == Some(1u32),
    {
        Some(1)
    }

    /// The name under which screen descriptions refer to this component.
    pub fn get_name(&self) -> (r: &'static str)
        ensures
            r@ == "GroupingBox"@,
    {
        "GroupingBox"
    }
}

/// Whether a component whose type accepts at most `max_children` children
/// (`None`: any number) may have `children` of them.
pub fn children_within_limit(max_children: Option<u32>, children: usize) -> (r: bool)
    ensures
        r == match max_children {
            Some(max) => children <= max,
            None => true,
        },
{
    match max_children {
        Some(max) => children <= max as usize,
        None => true,
    }
}

/// The public data of a new component instance, from what the screen
/// description gives as `json`. Where `json` was read as the component's data
/// type (`parsed`), that is the data. Otherwise the component's default data
/// is asked for (`default`); with none there is no instance (`None`); where
/// `json` is an object, its properties are laid over the default data (`join`),
/// and otherwise the default data is used as it is.
pub fn instance_data<D, Df: FnOnce() -> Option<D>, J: FnOnce(&D, &JsonObject) -> D>(
    json: &serde_json::Value,
    parsed: Option<D>,
    default: Df,
    join: J,
) -> (r: Option<D>)
    requires
        default.requires(()),
        forall|d: &D, properties: &JsonObject| join.requires((d, properties)),
    ensures
        parsed matches Some(d) ==> r == Some(d),
        parsed is None && r is None ==> call_ensures(default, (), None::<D>),
        parsed is None && r is Some ==> exists|dd: D|
            #![trigger call_ensures(default, (), Some(dd))]
            call_ensures(default, (), Some(dd)) && match json_object_of(*json) {
                Some(m) => exists|obj: JsonObject|
                    #![trigger json_entries(obj)]
                    json_entries(obj) == m && call_ensures(join, (&dd, &obj), r->0),
                None => r == Some(dd),
            },
        parsed is None && (forall|o: Option<D>| call_ensures(default, (), o) ==> o is Some) ==> r is Some,
{
    match parsed {
        Some(d) => Some(d),
        None => match default() {
            None => None,
            Some(dd) => match value_as_object(json) {
                Some(obj) => Some(join(&dd, obj)),
                None => Some(dd),
            },
        },
    }
}

} // verus!
