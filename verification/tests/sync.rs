use feed_sync::dates::{Date, Timestamp};
use feed_sync::entry::{parse_feed, CandidateEntry, SourceError};
use feed_sync::feed_item::FeedItem;
use feed_sync::feeds::{filter_entries, Feed, NewFeedItem};
use feed_sync::source::Source;

fn date(y: i32, m: u32, d: u32) -> Date {
    Date::new(y, m, d).unwrap()
}

fn midnight(y: i32, m: u32, d: u32) -> Timestamp {
    Timestamp { date: date(y, m, d), sec_of_day: 0 }
}

fn atom_doc(title: &str, href: &str, published: &str) -> Vec<u8> {
    format!(
        r#"<?xml version="1.0" encoding="utf-8"?>
<feed xmlns="http://www.w3.org/2005/Atom">
  <title>Example</title>
  <id>urn:feed</id>
  <updated>2024-01-01T00:00:00Z</updated>
  <entry>
    <title>{title}</title>
    <id>urn:entry</id>
    <link href="{href}"/>
    <published>{published}</published>
  </entry>
</feed>"#
    )
    .into_bytes()
}

#[test]
fn parse_feed_reads_entry_fields() {
    let bytes = atom_doc("Hello", "https://a.example/p1", "2024-01-01T00:00:00Z");
    let entries = parse_feed(&bytes).unwrap();
    assert_eq!(entries.len(), 1);
    assert_eq!(entries[0].title.as_deref(), Some("Hello"));
    assert_eq!(entries[0].links[0], "https://a.example/p1");
    assert_eq!(entries[0].published, Some(midnight(2024, 1, 1)));
    assert_eq!(entries[0].updated, None);
}

#[test]
fn parse_feed_rejects_non_feed_bytes() {
    let bytes: Vec<u8> = b"this is not a feed".to_vec();
    assert_eq!(parse_feed(&bytes).unwrap_err(), SourceError::Parse);
}

#[test]
fn parse_feed_rejects_bytes_outside_the_plain_subset() {
    // Non-ASCII bytes.
    let bytes: Vec<u8> = "<feed>\u{00e9}</feed>".as_bytes().to_vec();
    assert_eq!(parse_feed(&bytes).unwrap_err(), SourceError::Parse);
    // A character reference.
    let bytes: Vec<u8> = b"<feed><title>a&#48;b</title></feed>".to_vec();
    assert_eq!(parse_feed(&bytes).unwrap_err(), SourceError::Parse);
    // Comment or CDATA markup.
    let bytes: Vec<u8> = b"<feed><!-- note --></feed>".to_vec();
    assert_eq!(parse_feed(&bytes).unwrap_err(), SourceError::Parse);
    // A processing instruction past the leading declaration.
    let bytes: Vec<u8> = b"<feed><?pi?></feed>".to_vec();
    assert_eq!(parse_feed(&bytes).unwrap_err(), SourceError::Parse);
    // A run of sixteen digits.
    let bytes: Vec<u8> = b"<feed><id>1234567890123456</id></feed>".to_vec();
    assert_eq!(parse_feed(&bytes).unwrap_err(), SourceError::Parse);
    // Fifteen digits pass the screen; a title of them parses fine.
    let doc = atom_doc("123456789012345", "https://a.example/p1", "2024-01-01T00:00:00Z");
    assert_eq!(parse_feed(&doc).unwrap().len(), 1);
}

#[test]
fn parse_feed_accepts_a_leading_declaration() {
    let bytes = atom_doc("Hello", "https://a.example/p1", "2024-01-01T00:00:00Z");
    assert!(bytes.starts_with(b"<?xml"));
    assert_eq!(parse_feed(&bytes).unwrap().len(), 1);
}

#[test]
fn boundary_published_exactly_at_cutoff_is_kept() {
    let cutoff = date(2024, 1, 1);
    let entry = CandidateEntry {
        title: Some("Hello".to_string()),
        links: vec!["https://a.example/p1".to_string()],
        published: Some(midnight(2024, 1, 1)),
        updated: None,
    };
    let kept = filter_entries(vec![entry], Some(cutoff));
    assert_eq!(kept.len(), 1);
}

#[test]
fn undated_entry_is_kept_under_any_cutoff() {
    let entry = CandidateEntry {
        title: Some("Hello".to_string()),
        links: vec!["https://a.example/p1".to_string()],
        published: None,
        updated: None,
    };
    let kept = filter_entries(vec![entry], Some(date(2999, 1, 1)));
    assert_eq!(kept.len(), 1);
}

#[test]
fn updated_is_the_fallback_date() {
    let entry = CandidateEntry {
        title: Some("Hello".to_string()),
        links: vec!["https://a.example/p1".to_string()],
        published: None,
        updated: Some(midnight(2024, 5, 1)),
    };
    let kept = filter_entries(vec![entry], Some(date(2024, 6, 1)));
    assert_eq!(kept.len(), 0);
}

#[test]
fn run_persists_new_entry() {
    // Source without a cutoff, one fresh entry, empty dedup set.
    let source = Source { link: "https://a.example/feed".to_string(), offset_date: None };
    let bytes = atom_doc("Hello", "https://a.example/p1", "2024-01-01T00:00:00Z");
    let items = Feed::get_feed_items(&source, &bytes).unwrap();
    let feed = Feed::new();
    let new_items: Vec<NewFeedItem> = feed.run(vec![Ok(items)], vec![], midnight(2024, 7, 1));
    assert_eq!(new_items.len(), 1);
    assert_eq!(new_items[0].title, "Hello");
    assert_eq!(new_items[0].link, "https://a.example/p1");
    assert_eq!(new_items[0].created_at, midnight(2024, 1, 1));
    assert!(!new_items[0].read);
    assert!(!new_items[0].starred);
}

#[test]
fn run_skips_already_persisted_link() {
    let source = Source { link: "https://a.example/feed".to_string(), offset_date: None };
    let bytes = atom_doc("Hello", "https://a.example/p1", "2024-01-01T00:00:00Z");
    let items = Feed::get_feed_items(&source, &bytes).unwrap();
    let existing = vec![FeedItem { link: "https://a.example/p1".to_string() }];
    let feed = Feed::new();
    let new_items = feed.run(vec![Ok(items)], existing, midnight(2024, 7, 1));
    assert_eq!(new_items.len(), 0);
}

#[test]
fn run_discards_entry_older_than_cutoff() {
    let source = Source {
        link: "https://a.example/feed".to_string(),
        offset_date: Some(date(2024, 6, 1)),
    };
    let bytes = atom_doc("Hello", "https://a.example/p1", "2024-05-01T00:00:00Z");
    let items = Feed::get_feed_items(&source, &bytes).unwrap();
    let feed = Feed::new();
    let new_items = feed.run(vec![Ok(items)], vec![], midnight(2024, 7, 1));
    assert_eq!(new_items.len(), 0);
}

#[test]
fn failed_source_contributes_nothing_without_failing_the_run() {
    let source = Source { link: "https://a.example/feed".to_string(), offset_date: None };
    let bytes = atom_doc("Hello", "https://a.example/p1", "2024-01-01T00:00:00Z");
    let items = Feed::get_feed_items(&source, &bytes).unwrap();
    let feed = Feed::new();
    let new_items = feed.run(
        vec![Err(SourceError::Fetch), Ok(items), Err(SourceError::Parse)],
        vec![],
        midnight(2024, 7, 1),
    );
    assert_eq!(new_items.len(), 1);
    assert_eq!(new_items[0].link, "https://a.example/p1");
}

#[test]
fn second_run_writes_nothing() {
    // After the first run's writes join the dedup set, the same upstream
    // entries select nothing.
    let source = Source { link: "https://a.example/feed".to_string(), offset_date: None };
    let bytes = atom_doc("Hello", "https://a.example/p1", "2024-01-01T00:00:00Z");
    let feed = Feed::new();

    let items1 = Feed::get_feed_items(&source, &bytes).unwrap();
    let first = feed.run(vec![Ok(items1)], vec![], midnight(2024, 7, 1));
    assert_eq!(first.len(), 1);

    let existing: Vec<FeedItem> =
        first.iter().map(|it| FeedItem { link: it.link.clone() }).collect();
    let items2 = Feed::get_feed_items(&source, &bytes).unwrap();
    let second = feed.run(vec![Ok(items2)], existing, midnight(2024, 7, 2));
    assert_eq!(second.len(), 0);
}

#[test]
fn entry_without_link_or_title_is_discarded() {
    let no_link = CandidateEntry {
        title: Some("Hello".to_string()),
        links: vec![],
        published: Some(midnight(2024, 1, 1)),
        updated: None,
    };
    let no_title = CandidateEntry {
        title: None,
        links: vec!["https://a.example/p2".to_string()],
        published: Some(midnight(2024, 1, 1)),
        updated: None,
    };
    let feed = Feed::new();
    let new_items = feed.run(vec![Ok(vec![no_link, no_title])], vec![], midnight(2024, 7, 1));
    assert_eq!(new_items.len(), 0);
}

#[test]
fn missing_dates_fall_back_to_now() {
    let entry = CandidateEntry {
        title: Some("Hello".to_string()),
        links: vec!["https://a.example/p1".to_string()],
        published: None,
        updated: None,
    };
    let now = midnight(2024, 7, 1);
    let feed = Feed::new();
    let new_items = feed.run(vec![Ok(vec![entry])], vec![], now);
    assert_eq!(new_items.len(), 1);
    assert_eq!(new_items[0].created_at, now);
}
