//! The value model of pages of the remote document store: a property bag
//! with one tagged variant per property type, and a total lookup.

use vstd::prelude::*;
use crate::dates::Timestamp;
use crate::text::str_eq;

verus! {

/// Plain text content of a rich-text fragment.
pub struct Text {
    pub content: String,
    pub link: Option<String>,
}

/// One rich-text fragment of a page property.
pub enum RichText {
    Text { rich_text: Option<String>, text: Text },
}

/// A date property value: a start instant and an optional end.
pub struct DateValue {
    pub start: Option<Timestamp>,
    pub end: Option<Timestamp>,
}

/// A typed value of one page property.
pub enum PropertyValue {
    Url { url: Option<String> },
    Text { rich_text: Vec<RichText> },
    Checkbox { checkbox: bool },
    Date { date: Option<DateValue> },
    Title { title: Vec<RichText> },
}

/// A page of the remote store: a property bag, when the page carries one.
pub struct Page {
    pub properties: Option<Vec<(String, PropertyValue)>>,
}

/// The value of the first property with the given name, if any.
pub open spec fn spec_get_property(
    props: Seq<(String, PropertyValue)>,
    name: Seq<char>,
) -> Option<PropertyValue>
    decreases props.len(),
{
    if props.len() == 0 {
        None
    } else if props[0].0@ == name {
        Some(props[0].1)
    } else {
        spec_get_property(props.drop_first(), name)
    }
}

/// Looks up the first property with the given name.
pub fn get_property<'a>(props: &'a Vec<(String, PropertyValue)>, name: &str) -> (r: Option<
    &'a PropertyValue,
>)
    ensures
        match r {
            Some(p) => spec_get_property(props@, name@) == Some(*p),
            None => spec_get_property(props@, name@) is None,
        },
{
    let n: usize = props.len();
    let mut i: usize = 0;
    proof {
        assert(props@.skip(0) =~= props@);
    }
    while i < n
        invariant
            i <= n,
            n == props@.len(),
            spec_get_property(props@, name@) == spec_get_property(
                props@.skip(i as int),
                name@,
            ),
        decreases n - i,
    {
        if str_eq(props[i].0.as_str(), name) {
            proof {
                assert(props@.skip(i as int)[0] == props@[i as int]);
            }
            return Some(&props[i].1);
        }
        proof {
            assert(props@.skip(i as int).drop_first() =~= props@.skip(i as int + 1));
        }
        i = i + 1;
    }
    proof {
        assert(props@.skip(i as int).len() == 0);
    }
    None
}

} // verus!
