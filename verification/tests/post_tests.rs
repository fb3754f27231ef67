use theguardian_rss_bot::feed::FeedItem;
use theguardian_rss_bot::post::{
    compose_post, description_from_plain, fit_description, hashtags_for, plan_item, plan_posts,
    room_for_description, strip_empty_paragraphs, PostAction,
};
use theguardian_rss_bot::dates::parse_date;
use theguardian_rss_bot::text::{chars_of, string_of};

fn s(v: &Vec<char>) -> String {
    string_of(v)
}

fn item(title: &str, date: Option<&str>, description: &str, categories: &[&str]) -> FeedItem {
    FeedItem {
        title: Some(title.to_string()),
        link: Some("https://www.theguardian.com/a".to_string()),
        description: Some(description.to_string()),
        pub_date: date.map(|d| d.to_string()),
        categories: categories.iter().map(|c| c.to_string()).collect(),
    }
}

#[test]
fn empty_paragraphs_are_removed() {
    let r = strip_empty_paragraphs(&chars_of("<p></p>\r\n<p>a</p><p></p>\n<p></p>b"));
    assert_eq!(s(&r), "<p>a</p>b");
}

#[test]
fn description_keeps_non_empty_lines_without_links() {
    let plain = chars_of("  First line  \n\n second line\r\nContinue reading...\nRead more... x\n last ");
    assert_eq!(s(&description_from_plain(&plain)), "First line second line last");
    assert_eq!(s(&description_from_plain(&chars_of("\n \n"))), "");
}

#[test]
fn hashtags_take_five_categories_and_the_guardian() {
    let cats: Vec<String> = ["World news", " ", "Europe", "A", "B", "C", "D"].iter().map(|c| c.to_string()).collect();
    assert_eq!(s(&hashtags_for(&cats)), "#Worldnews #Europe #A #B #C #TheGuardian");
    assert_eq!(s(&hashtags_for(&vec![])), "#TheGuardian");
}

#[test]
fn room_and_fitting() {
    assert_eq!(room_for_description(10, 20, 30), 490 - (10 + 23 + 20 + 30 + 8));
    assert_eq!(room_for_description(500, 0, 0), 0);
    assert_eq!(room_for_description(usize::MAX, 1, 1), 0);
    let d = chars_of("abcdefghij");
    assert_eq!(s(&fit_description(&d, 10)), "abcdefghij");
    assert_eq!(s(&fit_description(&d, 9)), "abcdef...");
    assert_eq!(s(&fit_description(&d, 2)), "...");
}

#[test]
fn post_layout() {
    let r = compose_post(&chars_of("T"), &chars_of("D"), &chars_of("L"), &chars_of("#H"), &chars_of("X"));
    assert_eq!(s(&r), "T\n\nD\n\nL\n#H\n(X)");
}

#[test]
fn a_new_item_is_published() {
    let it = item(
        "Title",
        Some("Wed, 01 May 2024 12:00:00 GMT"),
        "<p>Hello world.</p><p></p>",
        &["World news"],
    );
    match plan_item(&it, None) {
        PostAction::Publish { title, date, message } => {
            assert_eq!(title, "Title");
            assert_eq!(date, "Wed, 1 May 2024 12:00:00 +0000");
            assert_eq!(
                message,
                "Title\n\nHello world.\n\nhttps://www.theguardian.com/a\n#Worldnews #TheGuardian\n(Wed, 1 May 2024 12:00:00 +0000)"
            );
        }
        _ => panic!("expected Publish"),
    }
}

#[test]
fn old_and_undated_items_are_skipped_after_a_run() {
    let saved = parse_date("2024-05-01 12:00:00");
    let old = item("Old", Some("Wed, 01 May 2024 12:00:00 GMT"), "", &[]);
    assert!(matches!(plan_item(&old, saved), PostAction::AlreadyPosted));
    let undated = item("U", Some("soon"), "", &[]);
    match plan_item(&undated, saved) {
        PostAction::Undated { raw_date } => assert_eq!(raw_date.as_deref(), Some("soon")),
        _ => panic!("expected Undated"),
    }
    let newer = item("N", Some("Wed, 01 May 2024 12:00:01 GMT"), "", &[]);
    assert!(matches!(plan_item(&newer, saved), PostAction::Publish { .. }));
    match plan_item(&undated, None) {
        PostAction::Publish { date, .. } => assert_eq!(date, "soon"),
        _ => panic!("expected Publish"),
    }
}

#[test]
fn dates_rfc2822_cannot_write_stop_the_run() {
    let far = item("F", Some("+12345-01-01 00:00:00"), "", &[]);
    if parse_date("+12345-01-01 00:00:00").is_some() {
        assert!(matches!(plan_item(&far, None), PostAction::DateNotWritable));
    }
}

#[test]
fn long_descriptions_are_cut_to_the_limit() {
    let long = "word ".repeat(200);
    let it = item("Title", Some("2024-05-01T12:00:00Z"), &format!("<p>{}</p>", long), &[]);
    match plan_item(&it, None) {
        PostAction::Publish { message, date, .. } => {
            let link_len = "https://www.theguardian.com/a".chars().count();
            let counted = message.chars().count() - link_len + 23;
            assert_eq!(counted, 490);
            assert!(message.contains("...\n\nhttps://"));
            assert_eq!(date, "Wed, 1 May 2024 12:00:00 +0000");
        }
        _ => panic!("expected Publish"),
    }
}

#[test]
fn a_run_goes_oldest_first() {
    let items = vec![
        item("B", Some("2024-05-02T00:00:00Z"), "", &[]),
        item("A", Some("2024-05-01T00:00:00Z"), "", &[]),
        item("C", Some("2024-04-01T00:00:00Z"), "", &[]),
    ];
    let steps = plan_posts(&items, &Some("2024-04-15 00:00:00".to_string()));
    let order: Vec<usize> = steps.iter().map(|s| s.item).collect();
    assert_eq!(order, vec![2, 1, 0]);
    assert!(matches!(steps[0].action, PostAction::AlreadyPosted));
    assert!(matches!(steps[1].action, PostAction::Publish { .. }));
    assert!(matches!(steps[2].action, PostAction::Publish { .. }));
}
