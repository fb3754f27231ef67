use theguardian_rss_bot::feed::{
    feed_headers, feed_url, items_oldest_first, last_run_key, read_feed, FeedError, FeedItem,
};

const RSS: &str = r#"<?xml version="1.0" encoding="UTF-8"?>
<rss version="2.0"><channel><title>World</title><link>https://example.org</link><description>d</description>
<item><title>Later</title><link>https://example.org/2</link><description>&lt;p&gt;Two&lt;/p&gt;</description>
<category>World news</category><category>Europe</category><pubDate>Wed, 01 May 2024 13:00:00 GMT</pubDate></item>
<item><title>Earlier</title><link>https://example.org/1</link><pubDate>Wed, 01 May 2024 12:00:00 GMT</pubDate></item>
</channel></rss>"#;

fn item(date: Option<&str>) -> FeedItem {
    FeedItem {
        title: None,
        link: None,
        description: None,
        pub_date: date.map(|d| d.to_string()),
        categories: vec![],
    }
}

#[test]
fn items_are_read_in_feed_order() {
    let items = read_feed(RSS.as_bytes()).ok().unwrap();
    assert_eq!(items.len(), 2);
    assert_eq!(items[0].title.as_deref(), Some("Later"));
    assert_eq!(items[0].description.as_deref(), Some("<p>Two</p>"));
    assert_eq!(items[0].categories, vec!["World news".to_string(), "Europe".to_string()]);
    assert_eq!(items[1].pub_date.as_deref(), Some("Wed, 01 May 2024 12:00:00 GMT"));
    assert_eq!(items[1].categories.len(), 0);
}

#[test]
fn text_that_is_no_rss_is_refused() {
    match read_feed(b"<html></html>") {
        Err(FeedError::NotRss { message }) => assert!(!message.is_empty()),
        _ => panic!("expected NotRss"),
    }
}

#[test]
fn items_go_oldest_first() {
    let items = read_feed(RSS.as_bytes()).ok().unwrap();
    assert_eq!(items_oldest_first(&items), vec![1, 0]);
}

#[test]
fn the_sort_is_stable_and_puts_undated_items_first() {
    let items = vec![
        item(Some("2024-05-01 12:00:00")),
        item(None),
        item(Some("2024-04-01 12:00:00")),
        item(Some("2024-05-01T12:00:00Z")),
        item(Some("not a date")),
    ];
    assert_eq!(items_oldest_first(&items), vec![1, 4, 2, 0, 3]);
    assert_eq!(items_oldest_first(&vec![]), Vec::<usize>::new());
}

#[test]
fn feed_request_headers() {
    let h = feed_headers(None);
    assert_eq!(h.len(), 5);
    assert_eq!(h[0].0, "User-Agent");
    assert_eq!(h[0].1, "Mozilla/5.0 (Windows NT 10.0; Win64; x64; rv:125.0) Gecko/20100101 Firefox/125.0");
    assert_eq!(h[2], ("Accept-Language".to_string(), "en-US,en;q=0.9".to_string()));
    assert_eq!(h[4], ("Upgrade-Insecure-Requests".to_string(), "1".to_string()));
    let h = feed_headers(Some("bot/2".to_string()));
    assert_eq!(h[0].1, "bot/2");
}

#[test]
fn feed_address_and_key() {
    assert_eq!(feed_url(None), "https://www.theguardian.com/world/rss");
    assert_eq!(feed_url(Some("  https://x.org/rss \n".to_string())), "https://x.org/rss");
    assert_eq!(last_run_key(), "theguardian-rss.last_build_date");
}
