use feed_sync::config::Config;
use feed_sync::dates::{Date, Timestamp};
use feed_sync::feed_item::FeedItem;
use feed_sync::feeds::Feed;
use feed_sync::notion::{DateValue, Page, PropertyValue, RichText, Text};
use feed_sync::source::Source;

fn date(y: i32, m: u32, d: u32) -> Date {
    Date::new(y, m, d).unwrap()
}

fn text_property(content: &str) -> PropertyValue {
    PropertyValue::Text {
        rich_text: vec![RichText::Text {
            rich_text: None,
            text: Text { content: content.to_string(), link: None },
        }],
    }
}

fn source_page(link: Option<&str>, offset: Option<&str>) -> Page {
    let mut props: Vec<(String, PropertyValue)> = Vec::new();
    props.push((
        "Link".to_string(),
        PropertyValue::Url { url: link.map(|l| l.to_string()) },
    ));
    if let Some(o) = offset {
        props.push(("Offset date".to_string(), text_property(o)));
    }
    Page { properties: Some(props) }
}

#[test]
fn source_from_page_with_offset() {
    let page = source_page(Some("https://a.example/feed"), Some("2 months"));
    let source = Source::new(&page, date(2024, 7, 31)).unwrap();
    assert_eq!(source.link, "https://a.example/feed");
    assert_eq!(source.offset_date, Some(date(2024, 5, 31)));
}

#[test]
fn source_cutoff_clamps_at_month_end() {
    let page = source_page(Some("https://a.example/feed"), Some("1 month"));
    let source = Source::new(&page, date(2024, 1, 31)).unwrap();
    assert_eq!(source.offset_date, Some(date(2023, 12, 31)));
}

#[test]
fn source_with_malformed_offset_has_no_cutoff() {
    let page = source_page(Some("https://a.example/feed"), Some("soon"));
    let source = Source::new(&page, date(2024, 7, 31)).unwrap();
    assert_eq!(source.offset_date, None);
}

#[test]
fn source_without_offset_text_has_no_cutoff() {
    let page = source_page(Some("https://a.example/feed"), None);
    let source = Source::new(&page, date(2024, 7, 31)).unwrap();
    assert_eq!(source.offset_date, None);
}

#[test]
fn page_without_link_yields_no_source() {
    assert!(Source::new(&source_page(None, Some("2 months")), date(2024, 7, 31)).is_none());
    assert!(Source::new(&Page { properties: None }, date(2024, 7, 31)).is_none());
}

#[test]
fn feed_item_from_page() {
    let page = source_page(Some("https://a.example/p1"), None);
    let item = FeedItem::new(&page).unwrap();
    assert_eq!(item.link, "https://a.example/p1");
    assert!(FeedItem::new(&source_page(None, None)).is_none());
    assert!(FeedItem::new(&Page { properties: None }).is_none());
}

#[test]
fn source_list_and_feed_list_skip_pages_without_links() {
    let feed = Feed::new();
    let pages = vec![
        source_page(Some("https://a.example/one"), None),
        source_page(None, None),
        source_page(Some("https://a.example/two"), Some("3 months")),
    ];
    let sources = feed.get_source_list(pages, date(2024, 7, 15));
    assert_eq!(sources.len(), 2);
    assert_eq!(sources[0].link, "https://a.example/one");
    assert_eq!(sources[1].link, "https://a.example/two");
    assert_eq!(sources[1].offset_date, Some(date(2024, 4, 15)));

    let pages = vec![
        source_page(Some("https://a.example/one"), None),
        source_page(None, None),
    ];
    let items = feed.get_feed_list(pages);
    assert_eq!(items.len(), 1);
    assert_eq!(items[0].link, "https://a.example/one");
}

#[test]
fn add_feed_entry_builds_the_five_properties() {
    let feed = Feed::new();
    let created = Timestamp { date: date(2024, 1, 1), sec_of_day: 3600 };
    let props = feed.add_feed_entry(
        "Hello".to_string(),
        "https://a.example/p1".to_string(),
        created,
    );
    assert_eq!(props.len(), 5);
    assert_eq!(props[0].0, "Title");
    match &props[0].1 {
        PropertyValue::Title { title } => match &title[0] {
            RichText::Text { rich_text, text } => {
                assert!(rich_text.is_none());
                assert_eq!(text.content, "Hello");
                assert!(text.link.is_none());
            }
        },
        _ => panic!("expected a title property"),
    }
    assert_eq!(props[1].0, "Link");
    match &props[1].1 {
        PropertyValue::Url { url } => assert_eq!(url.as_deref(), Some("https://a.example/p1")),
        _ => panic!("expected a url property"),
    }
    assert_eq!(props[2].0, "Read");
    assert!(matches!(props[2].1, PropertyValue::Checkbox { checkbox: false }));
    assert_eq!(props[3].0, "Starred");
    assert!(matches!(props[3].1, PropertyValue::Checkbox { checkbox: false }));
    assert_eq!(props[4].0, "Published At");
    match &props[4].1 {
        PropertyValue::Date { date } => {
            let dv: &DateValue = date.as_ref().unwrap();
            assert_eq!(dv.start, Some(created));
            assert_eq!(dv.end, None);
        }
        _ => panic!("expected a date property"),
    }
}

#[test]
fn config_prefers_explicit_values_over_environment() {
    let config = Config::new(
        Some("token".to_string()),
        None,
        Some("feed-db".to_string()),
        Some("env-token".to_string()),
        Some("env-source-db".to_string()),
        None,
    )
    .unwrap();
    assert_eq!(config.notion_api_token, "token");
    assert_eq!(config.notion_source_database_id, "env-source-db");
    assert_eq!(config.notion_feed_database_id, "feed-db");
}

#[test]
fn config_rejects_missing_or_empty_values() {
    let err = Config::new(None, None, None, None, None, None).unwrap_err();
    assert_eq!(err, "invalid config variable: NOTION_API_TOKEN");

    let err = Config::new(
        Some("token".to_string()),
        Some("".to_string()),
        None,
        None,
        None,
        None,
    )
    .unwrap_err();
    assert_eq!(err, "invalid config variable: NOTION_SOURCE_DATABASE_ID");

    let err = Config::new(
        Some("token".to_string()),
        Some("source-db".to_string()),
        None,
        None,
        None,
        Some("".to_string()),
    )
    .unwrap_err();
    assert_eq!(err, "invalid config variable: NOTION_FEED_DATABASE_ID");
}
