//! A previously persisted feed entry, read back for deduplication.

use vstd::prelude::*;
use crate::notion::{Page, PropertyValue, spec_get_property, get_property};

verus! {

/// A persisted feed entry; only its link matters, as the dedup key.
#[derive(Debug)]
pub struct FeedItem {
    pub link: String,
}

/// The feed item a page yields: its `Link` URL property, when the page has
/// a property bag and that property is a URL with a value.
pub open spec fn spec_feed_item_new(page: Page) -> Option<FeedItem> {
    match page.properties {
        Some(props) => match spec_get_property(props@, "Link"@) {
            Some(PropertyValue::Url { url: Some(u) }) => Some(FeedItem { link: u }),
            _ => None,
        },
        None => None,
    }
}

impl FeedItem {
    /// Projects a page of the remote store onto a feed item.
    pub fn new(page: &Page) -> (r: Option<FeedItem>)
        ensures
            r == spec_feed_item_new(*page),
    {
        let properties = match &page.properties {
            Some(p) => p,
            None => {
                return None;
            },
        };
        match get_property(properties, "Link") {
            Some(pv) => match pv {
                PropertyValue::Url { url } => match url {
                    Some(u) => Some(FeedItem { link: u.clone() }),
                    None => None,
                },
                _ => None,
            },
            None => None,
        }
    }
}

} // verus!
