//! The shape that a catalog item must have before its fields are read.

use crate::json::{elements_of, is_null, is_object, json_of, member, text_of, Json};
use serde_json::Value;
use vstd::prelude::*;

verus! {

/// The three named fields of a catalog item, each absent or a text.
#[derive(Debug)]
pub struct OsdrItemValidation {
    pub dataset_id: Option<String>,
    pub title: Option<String>,
    pub status: Option<String>,
}

/// The mathematical content of an [`OsdrItemValidation`].
pub struct ItemShape {
    pub dataset_id: Option<Seq<char>>,
    pub title: Option<Seq<char>>,
    pub status: Option<Seq<char>>,
}

/// What a value gives for an optional text: null gives none, a text gives
/// itself, and any other value is refused (the outer `None`).
pub open spec fn optional_text(value: Json) -> Option<Option<Seq<char>>> {
    match value {
        Json::Null => Some(None),
        Json::Text(s) => Some(Some(s)),
        _ => None,
    }
}

/// What an object gives for an optional text under a key: a missing key
/// gives none.
pub open spec fn optional_member(m: Map<Seq<char>, Json>, key: Seq<char>) -> Option<
    Option<Seq<char>>,
> {
    if m.dom().contains(key) {
        optional_text(m[key])
    } else {
        Some(None)
    }
}

/// The shape read from an item. An object gives its members `dataset_id`,
/// `title` and `status`, other members being ignored; an array of exactly
/// three entries gives them by position; every other value, and a field that
/// is neither null nor a text, is refused.
pub open spec fn shape_of(item: Json) -> Option<ItemShape> {
    match item {
        Json::Object(m) => {
            let a = optional_member(m, "dataset_id"@);
            let b = optional_member(m, "title"@);
            let c = optional_member(m, "status"@);
            if a is Some && b is Some && c is Some {
                Some(ItemShape { dataset_id: a.unwrap(), title: b.unwrap(), status: c.unwrap() })
            } else {
                None
            }
        },
        Json::Array(entries) => {
            if entries.len() == 3 && optional_text(entries[0]) is Some && optional_text(
                entries[1],
            ) is Some && optional_text(entries[2]) is Some {
                Some(
                    ItemShape {
                        dataset_id: optional_text(entries[0]).unwrap(),
                        title: optional_text(entries[1]).unwrap(),
                        status: optional_text(entries[2]).unwrap(),
                    },
                )
            } else {
                None
            }
        },
        _ => None,
    }
}

/// A field passes when it is absent or holds at least one character.
pub open spec fn field_passes(field: Option<Seq<char>>) -> bool {
    match field {
        Some(s) => s.len() >= 1,
        None => true,
    }
}

/// A shape is valid when each of its three fields passes.
pub open spec fn shape_is_valid(shape: ItemShape) -> bool {
    field_passes(shape.dataset_id) && field_passes(shape.title) && field_passes(shape.status)
}

/// Whether an item is taken in: it has a shape, and the shape is valid.
pub open spec fn item_is_accepted(item: Json) -> bool {
    match shape_of(item) {
        Some(shape) => shape_is_valid(shape),
        None => false,
    }
}

fn optional_text_of(v: &Value) -> (out: Option<Option<String>>)
    ensures
        match out {
            Some(Some(s)) => optional_text(json_of(*v)) == Some(Some(s@)),
            Some(None) => optional_text(json_of(*v)) == Some(None::<Seq<char>>),
            None => optional_text(json_of(*v)).is_none(),
        },
{
    match text_of(v) {
        Some(s) => Some(Some(s.to_owned())),
        None => if is_null(v) {
            Some(None)
        } else {
            None
        },
    }
}

fn optional_member_of(v: &Value, key: &str) -> (out: Option<Option<String>>)
    requires
        json_of(*v) is Object,
    ensures
        match out {
            Some(Some(s)) => optional_member(json_of(*v)->Object_0, key@) == Some(Some(s@)),
            Some(None) => optional_member(json_of(*v)->Object_0, key@) == Some(
                None::<Seq<char>>,
            ),
            None => optional_member(json_of(*v)->Object_0, key@).is_none(),
        },
{
    match member(v, key) {
        Some(x) => optional_text_of(x),
        None => Some(None),
    }
}

fn field_is_valid(field: &Option<String>) -> (out: bool)
    ensures
        out == field_passes(
            match *field {
                Some(s) => Some(s@),
                None => None,
            },
        ),
{
    match field {
        Some(s) => !s.as_str().is_empty(),
        None => true,
    }
}

impl View for OsdrItemValidation {
    type V = ItemShape;

    open spec fn view(&self) -> ItemShape {
        ItemShape {
            dataset_id: match self.dataset_id {
                Some(s) => Some(s@),
                None => None,
            },
            title: match self.title {
                Some(s) => Some(s@),
                None => None,
            },
            status: match self.status {
                Some(s) => Some(s@),
                None => None,
            },
        }
    }
}

impl OsdrItemValidation {
    /// Reads the shape of an item, `None` where the item is refused.
    pub fn from_item(v: &Value) -> (out: Option<OsdrItemValidation>)
        ensures
            match out {
                Some(shape) => shape_of(json_of(*v)) == Some(shape@),
                None => shape_of(json_of(*v)).is_none(),
            },
    {
        match elements_of(v) {
            Some(entries) => {
                if entries.len() != 3 {
                    return None;
                }
                let a = optional_text_of(&entries[0]);
                let b = optional_text_of(&entries[1]);
                let c = optional_text_of(&entries[2]);
                match (a, b, c) {
                    (Some(dataset_id), Some(title), Some(status)) => Some(
                        OsdrItemValidation { dataset_id, title, status },
                    ),
                    _ => None,
                }
            },
            None => {
                if is_object(v) {
                    let a = optional_member_of(v, "dataset_id");
                    let b = optional_member_of(v, "title");
                    let c = optional_member_of(v, "status");
                    match (a, b, c) {
                        (Some(dataset_id), Some(title), Some(status)) => Some(
                            OsdrItemValidation { dataset_id, title, status },
                        ),
                        _ => None,
                    }
                } else {
                    None
                }
            },
        }
    }

    /// Whether each field that is present holds at least one character.
    pub fn validate(&self) -> (out: bool)
        ensures
            out == shape_is_valid(self@),
    {
        field_is_valid(&self.dataset_id) && field_is_valid(&self.title) && field_is_valid(
            &self.status,
        )
    }
}

/// Whether an item is taken in.
pub fn accepts(v: &Value) -> (out: bool)
    ensures
        out == item_is_accepted(json_of(*v)),
{
    match OsdrItemValidation::from_item(v) {
        Some(shape) => shape.validate(),
        None => false,
    }
}

} // verus!
