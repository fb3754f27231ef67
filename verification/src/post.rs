//! The posts: which items are posted, and the text of each post (title,
//! plain-text description fitted to Mastodon's limit, link, hashtags and
//! date).

use vstd::prelude::*;
use crate::dates::{
    chrono_rfc2822_text, not_later, opt_pair, parse_date, parse_rss_date, parsed_date, rfc2822_text,
    rfc2822_writable, is_not_later, Instant,
};
use crate::feed::{goes_before, is_stable_order, item_date, items_oldest_first, sort_keys, FeedItem};
use crate::text::opt_text;
use crate::text::{
    law_remove_char, law_trim_idempotent, append_all, append_range, append_str, chars_of, contains_exec, contains_text, copy_range,
    join, lines, lines_scan, replace_all, replace_all_exec, string_of, strip_cr, trim,
    trim_bounds, trimmed,
};

verus! {

// ---------------------------------------------------------------------------
// The description
// ---------------------------------------------------------------------------

/// The text of an optional field, empty where it is missing
/// (`Option::unwrap_or_default`).
pub open spec fn text_or_empty(o: Option<String>) -> Seq<char> {
    match o {
        Some(s) => s@,
        None => seq![],
    }
}

/// The description's HTML without empty paragraphs: `"<p></p>\r\n"`, then
/// `"<p></p>\n"`, then `"<p></p>"` removed.
pub open spec fn without_empty_paragraphs(html: Seq<char>) -> Seq<char> {
    replace_all(
        replace_all(replace_all(html, "<p></p>\r\n"@, seq![]), "<p></p>\n"@, seq![]),
        "<p></p>"@,
        seq![],
    )
}

/// The plain text that `html2text::config::plain().string_from_read` renders
/// from `html` at `width` columns, or `None` where it reports an error.
pub uninterp spec fn html2text_plain(html: Seq<char>, width: usize) -> Option<Seq<char>>;

/// A line of the rendered description is kept: it is not empty and is no
/// "Continue reading..." or "Read more..." link.
pub open spec fn keep_line(line: Seq<char>) -> bool {
    &&& line.len() > 0
    &&& !contains_text(line, "Continue reading..."@)
    &&& !contains_text(line, "Read more..."@)
}

/// The lines of the description that are kept, each trimmed, in order.
pub open spec fn kept_lines(ls: Seq<Seq<char>>) -> Seq<Seq<char>>
    decreases ls.len(),
{
    if ls.len() == 0 {
        seq![]
    } else if keep_line(trim(ls.last())) {
        kept_lines(ls.drop_last()).push(trim(ls.last()))
    } else {
        kept_lines(ls.drop_last())
    }
}

/// The description of a post, from its rendered plain text: the text
/// trimmed, cut into lines, each line trimmed, the kept lines joined by
/// single spaces.
pub open spec fn description_of(plain: Seq<char>) -> Seq<char> {
    join(kept_lines(lines(trim(plain))), " "@)
}

/// The width at which the description is rendered.
pub open spec fn render_width() -> usize {
    1000
}

/// The error that `html2text` reports.
#[verifier::external_type_specification]
#[verifier::external_body]
pub struct ExHtml2TextError(html2text::Error);

/// `html2text::config::plain().string_from_read` over the bytes of `html`.
/// Claims that the result is the named rendering.
#[verifier::external_body]
fn render_plain_text(html: &str, width: usize) -> (r: Result<String, html2text::Error>)
    ensures
        match r {
            Ok(s) => html2text_plain(html@, width) == Some(s@),
            Err(_) => html2text_plain(html@, width) is None,
        },
{
    html2text::config::plain().string_from_read(html.as_bytes(), width)
}

/// `ToString::to_string` of html2text's error (its `Display`). Nothing is
/// claimed of the text.
#[verifier::external_body]
fn html2text_error_text(e: &html2text::Error) -> String {
    e.to_string()
}

/// Removes the empty paragraphs from a description's HTML.
pub fn strip_empty_paragraphs(html: &Vec<char>) -> (r: Vec<char>)
    ensures
        r@ == without_empty_paragraphs(html@),
{
    let empty: Vec<char> = Vec::new();
    let p1 = chars_of("<p></p>\r\n");
    let p2 = chars_of("<p></p>\n");
    let p3 = chars_of("<p></p>");
    proof {
        reveal_strlit("<p></p>\r\n");
        reveal_strlit("<p></p>\n");
        reveal_strlit("<p></p>");
    }
    assert(empty@ =~= seq![]);
    let a = replace_all_exec(html, &p1, &empty);
    let b = replace_all_exec(&a, &p2, &empty);
    replace_all_exec(&b, &p3, &empty)
}

/// `ls.push(x)` less its last element is `ls`.
proof fn lemma_push_drop_last<A>(ls: Seq<A>, x: A)
    ensures
        ls.push(x).drop_last() == ls,
        ls.push(x).last() == x,
{
    assert(ls.push(x).drop_last() =~= ls);
}

/// Joining one more part.
proof fn lemma_join_push(ls: Seq<Seq<char>>, x: Seq<char>, sep: Seq<char>)
    ensures
        join(ls.push(x), sep) == if ls.len() == 0 {
            x
        } else {
            join(ls, sep) + sep + x
        },
{
    lemma_push_drop_last(ls, x);
    if ls.len() == 0 {
        assert(ls.push(x).len() == 1);
    }
}

/// Adds the line `t[lo..hi]` to the description `out`, which holds the
/// kept lines of `done` joined; `any` tells whether there is one.
fn add_line(out: &mut Vec<char>, any: &mut bool, t: &Vec<char>, lo: usize, hi: usize, Ghost(done): Ghost<Seq<Seq<char>>>)
    requires
        lo <= hi <= t.len(),
        old(out)@ == join(kept_lines(done), " "@),
        *old(any) == (kept_lines(done).len() > 0),
    ensures
        final(out)@ == join(kept_lines(done.push(t@.subrange(lo as int, hi as int))), " "@),
        *final(any) == (kept_lines(done.push(t@.subrange(lo as int, hi as int))).len() > 0),
{
    let ghost line = t@.subrange(lo as int, hi as int);
    proof {
        lemma_push_drop_last(done, line);
    }
    let (a, b) = trim_bounds(t, lo, hi);
    let trimmed_line = copy_range(t, a, b);
    let cont = chars_of("Continue reading...");
    let more = chars_of("Read more...");
    if b > a && !contains_exec(&trimmed_line, &cont) && !contains_exec(&trimmed_line, &more) {
        proof {
            lemma_join_push(kept_lines(done), trim(line), " "@);
        }
        if *any {
            append_str(out, " ");
        }
        append_range(out, t, a, b);
        *any = true;
    }
}

/// The description of a post, from the plain text that html2text rendered.
pub fn description_from_plain(plain: &Vec<char>) -> (r: Vec<char>)
    ensures
        r@ == description_of(plain@),
{
    let t = trimmed(plain);
    let n = t.len();
    let mut out: Vec<char> = Vec::new();
    let mut any = false;
    let mut start: usize = 0;
    let mut i: usize = 0;
    let ghost mut done: Seq<Seq<char>> = seq![];
    assert(out@ =~= join(kept_lines(done), " "@));
    while i < n
        invariant
            n == t.len(),
            start <= i <= n,
            done + lines_scan(t@, start as int, i as int) == lines(t@),
            out@ == join(kept_lines(done), " "@),
            any == (kept_lines(done).len() > 0),
        decreases n - i,
    {
        if t[i] == '\n' {
            let mut end = i;
            if end > start && t[end - 1] == '\r' {
                end = end - 1;
            }
            assert(t@.subrange(start as int, end as int) == strip_cr(
                t@.subrange(start as int, i as int),
            )) by {
                if i > start && t@[i - 1] == '\r' {
                    assert(t@.subrange(start as int, i as int).drop_last() =~= t@.subrange(
                        start as int,
                        i - 1,
                    ));
                }
            }
            add_line(&mut out, &mut any, &t, start, end, Ghost(done));
            proof {
                let x = strip_cr(t@.subrange(start as int, i as int));
                assert(done.push(x) + lines_scan(t@, i + 1, i + 1) =~= done + (seq![x]
                    + lines_scan(t@, i + 1, i + 1)));
                done = done.push(x);
            }
            start = i + 1;
            i = i + 1;
        } else {
            i = i + 1;
        }
    }
    if start < n {
        add_line(&mut out, &mut any, &t, start, n, Ghost(done));
        proof {
            let x = t@.subrange(start as int, n as int);
            assert(done.push(x) =~= done + seq![x]);
            done = done.push(x);
        }
    } else {
        assert(done =~= done + lines_scan(t@, start as int, i as int));
    }
    assert(done == lines(t@));
    out
}

// ---------------------------------------------------------------------------
// The hashtags
// ---------------------------------------------------------------------------

/// The hashtag of a category: `'#'` and the name without its spaces.
pub open spec fn category_tag(name: Seq<char>) -> Seq<char> {
    "#"@ + replace_all(name, " "@, seq![])
}

/// The hashtags of the categories, in order, leaving out those that are a
/// bare `'#'` (a tag is kept when its byte length exceeds 1, which for `'#'`
/// and what follows is the same as a length above 1 in characters).
pub open spec fn category_tags(names: Seq<Seq<char>>) -> Seq<Seq<char>>
    decreases names.len(),
{
    if names.len() == 0 {
        seq![]
    } else if category_tag(names.last()).len() > 1 {
        category_tags(names.drop_last()).push(category_tag(names.last()))
    } else {
        category_tags(names.drop_last())
    }
}

/// At most the first five of `tags`.
pub open spec fn first_five(tags: Seq<Seq<char>>) -> Seq<Seq<char>> {
    if tags.len() <= 5 {
        tags
    } else {
        tags.take(5)
    }
}

/// The tag that closes every post.
pub open spec fn guardian_tag() -> Seq<char> {
    "#TheGuardian"@
}

/// The hashtags of a post: those of the first five categories that give
/// one, then `#TheGuardian`.
pub open spec fn hashtags(names: Seq<Seq<char>>) -> Seq<Seq<char>> {
    first_five(category_tags(names)).push(guardian_tag())
}

/// The hashtags of a post joined by single spaces.
pub open spec fn hashtag_line(names: Seq<Seq<char>>) -> Seq<char> {
    join(hashtags(names), " "@)
}

/// The names of the categories.
pub open spec fn category_names(categories: Seq<String>) -> Seq<Seq<char>> {
    categories.map_values(|c: String| c@)
}

/// The hashtag line of a post from its item's categories.
pub fn hashtags_for(categories: &Vec<String>) -> (r: Vec<char>)
    ensures
        r@ == hashtag_line(category_names(categories@)),
{
    let ghost names = category_names(categories@);
    let space = chars_of(" ");
    let empty: Vec<char> = Vec::new();
    proof {
        reveal_strlit(" ");
    }
    let mut out: Vec<char> = Vec::new();
    let mut count: usize = 0;
    let mut k: usize = 0;
    assert(names.take(0) =~= seq![]);
    assert(out@ =~= join(first_five(category_tags(names.take(0))), " "@));
    while k < categories.len()
        invariant
            k <= categories.len(),
            names == category_names(categories@),
            space@ == " "@,
            space@.len() == 1,
            empty@ == Seq::<char>::empty(),
            count == first_five(category_tags(names.take(k as int))).len(),
            count <= 5,
            out@ == join(first_five(category_tags(names.take(k as int))), " "@),
        decreases categories.len() - k,
    {
        let ghost seen = category_tags(names.take(k as int));
        let name = chars_of(categories[k].as_str());
        let mut tag = chars_of("#");
        let without_spaces = replace_all_exec(&name, &space, &empty);
        append_all(&mut tag, &without_spaces);
        proof {
            assert(names.take(k + 1).drop_last() =~= names.take(k as int));
            assert(names.take(k + 1).last() == name@);
            assert(tag@ == category_tag(name@));
        }
        if tag.len() > 1 && count < 5 {
            proof {
                assert(category_tags(names.take(k + 1)) == seen.push(tag@));
                assert(seen.len() < 5);
                assert(first_five(seen.push(tag@)) == seen.push(tag@));
                lemma_join_push(seen, tag@, " "@);
            }
            if count > 0 {
                append_all(&mut out, &space);
            }
            append_all(&mut out, &tag);
            count += 1;
        } else {
            proof {
                if tag.len() > 1 {
                    assert(category_tags(names.take(k + 1)) == seen.push(tag@));
                    assert(seen.len() >= 5);
                    assert(first_five(seen.push(tag@)) =~= first_five(seen));
                } else {
                    assert(category_tags(names.take(k + 1)) == seen);
                }
            }
        }
        k += 1;
    }
    assert(names.take(categories.len() as int) =~= names);
    let ghost five = first_five(category_tags(names));
    proof {
        lemma_join_push(five, guardian_tag(), " "@);
    }
    if count > 0 {
        append_all(&mut out, &space);
    }
    append_str(&mut out, "#TheGuardian");
    out
}

// ---------------------------------------------------------------------------
// The text of a post
// ---------------------------------------------------------------------------

/// The characters Mastodon counts for any link.
pub open spec fn link_weight() -> int {
    23
}

/// The characters a post may count on Mastodon.
pub open spec fn post_limit() -> int {
    490
}

/// What a post counts besides its description: the title, the link as
/// Mastodon counts it, the hashtags, the date and the 8 characters of line
/// breaks and parentheses.
pub open spec fn counted_besides_description(
    title: Seq<char>,
    tags: Seq<char>,
    date: Seq<char>,
) -> int {
    title.len() + link_weight() + tags.len() + date.len() + 8
}

/// The room left for the description (never below 0).
pub open spec fn description_room(title: Seq<char>, tags: Seq<char>, date: Seq<char>) -> int {
    let used = counted_besides_description(title, tags, date);
    if used <= post_limit() {
        post_limit() - used
    } else {
        0
    }
}

/// The description fitted to `room` characters: left as it is where it
/// fits, else cut to `room - 3` characters (never below 0) followed by
/// `"..."`.
pub open spec fn fitted_description(desc: Seq<char>, room: int) -> Seq<char> {
    if desc.len() > room {
        desc.take(if room >= 3 { room - 3 } else { 0 }) + "..."@
    } else {
        desc
    }
}

/// The text of a post: title, description, link, hashtags and date in
/// parentheses, as `"{}\n\n{}\n\n{}\n{}\n({})"` lays them out.
pub open spec fn post_text(
    title: Seq<char>,
    desc: Seq<char>,
    link: Seq<char>,
    tags: Seq<char>,
    date: Seq<char>,
) -> Seq<char> {
    title + "\n\n"@ + desc + "\n\n"@ + link + "\n"@ + tags + "\n("@ + date + ")"@
}

/// The length of a post as Mastodon counts it, the link counting as 23.
pub open spec fn mastodon_length(
    title: Seq<char>,
    desc: Seq<char>,
    link: Seq<char>,
    tags: Seq<char>,
    date: Seq<char>,
) -> int {
    post_text(title, desc, link, tags, date).len() - link.len() + link_weight()
}

/// `a + b` in `usize`, or `usize::MAX` where it would not fit.
fn add_saturating(a: usize, b: usize) -> (r: usize)
    ensures
        r == if a + b <= usize::MAX { a + b } else { usize::MAX as int },
{
    if a > usize::MAX - b {
        usize::MAX
    } else {
        a + b
    }
}

/// The room left for the description (as `490usize.saturating_sub`).
pub fn room_for_description(title_len: usize, tags_len: usize, date_len: usize) -> (r: usize)
    ensures
        r == if title_len + 23 + tags_len + date_len + 8 <= 490 {
            490 - (title_len + 23 + tags_len + date_len + 8)
        } else {
            0
        },
{
    let used = add_saturating(add_saturating(add_saturating(title_len, tags_len), date_len), 31);
    if used <= 490 {
        490 - used
    } else {
        0
    }
}

/// The description fitted to `room` characters.
pub fn fit_description(desc: &Vec<char>, room: usize) -> (r: Vec<char>)
    ensures
        r@ == fitted_description(desc@, room as int),
{
    if desc.len() > room {
        let cut = if room >= 3 { room - 3 } else { 0 };
        let mut r = copy_range(desc, 0, cut);
        append_str(&mut r, "...");
        r
    } else {
        desc.clone()
    }
}

/// The text of a post.
pub fn compose_post(
    title: &Vec<char>,
    desc: &Vec<char>,
    link: &Vec<char>,
    tags: &Vec<char>,
    date: &Vec<char>,
) -> (r: Vec<char>)
    ensures
        r@ == post_text(title@, desc@, link@, tags@, date@),
{
    let mut r = title.clone();
    append_str(&mut r, "\n\n");
    append_all(&mut r, desc);
    append_str(&mut r, "\n\n");
    append_all(&mut r, link);
    append_str(&mut r, "\n");
    append_all(&mut r, tags);
    append_str(&mut r, "\n(");
    append_all(&mut r, date);
    append_str(&mut r, ")");
    r
}

// ---------------------------------------------------------------------------
// Which items are posted
// ---------------------------------------------------------------------------

/// What is done with an item.
pub enum PostAction {
    /// Its date is not after the date of the last run: it was posted then.
    AlreadyPosted,
    /// There is a date of the last run and the item has no date that reads:
    /// it is skipped rather than risk posting it twice. `raw_date` is the
    /// item's date field, for the log.
    Undated { raw_date: Option<String> },
    /// The item is posted: `title` and `date` for the log, `message` to send.
    Publish { title: String, date: String, message: String },
    /// The item's date reads but lies outside the years 0 to 9999, which
    /// RFC 2822 cannot write; the run stops there with a panic, as chrono's
    /// `to_rfc2822` does.
    DateNotWritable,
    /// html2text could not render the description; the run stops there
    /// with that error, `message` being html2text's account of it.
    DescriptionNotRendered { message: String },
}

/// An item, by its position in the feed, and what is done with it.
pub struct PostStep {
    pub item: usize,
    pub action: PostAction,
}

/// The date of the last run, read from its stored text.
pub open spec fn saved_date(stored: Option<String>) -> Option<(i64, u32)> {
    match stored {
        Some(s) => parsed_date(s@),
        None => None,
    }
}

/// The item's date is not after the date of the last run.
pub open spec fn already_posted(item: FeedItem, saved: Option<(i64, u32)>) -> bool {
    &&& item_date(item) is Some
    &&& saved is Some
    &&& not_later(item_date(item).unwrap(), saved.unwrap())
}

/// There is a date of the last run and the item has no date that reads.
pub open spec fn undated_after_a_run(item: FeedItem, saved: Option<(i64, u32)>) -> bool {
    item_date(item) is None && saved is Some
}

/// The date a post shows: the item's date in RFC 2822 where it reads (none
/// where RFC 2822 cannot write it), else the item's date field as it is.
pub open spec fn shown_date(item: FeedItem) -> Option<Seq<char>> {
    match item_date(item) {
        Some(p) => if rfc2822_writable(Instant { secs: p.0, nanos: p.1 }) {
            chrono_rfc2822_text(p.0, p.1)
        } else {
            None
        },
        None => Some(text_or_empty(item.pub_date)),
    }
}

/// The item's description rendered as plain text.
pub open spec fn rendered_description(item: FeedItem) -> Option<Seq<char>> {
    html2text_plain(without_empty_paragraphs(text_or_empty(item.description)), render_width())
}

/// The message posted for an item that shows `date` and whose description
/// renders as `plain`.
pub open spec fn message_of(item: FeedItem, date: Seq<char>, plain: Seq<char>) -> Seq<char> {
    let title = text_or_empty(item.title);
    let tags = hashtag_line(category_names(item.categories@));
    let desc = fitted_description(description_of(plain), description_room(title, tags, date));
    post_text(title, desc, text_or_empty(item.link), tags, date)
}

/// `a` is what is done with `item` when the last run has date `saved`.
pub open spec fn is_planned_action(item: FeedItem, saved: Option<(i64, u32)>, a: PostAction) -> bool {
    if already_posted(item, saved) {
        a is AlreadyPosted
    } else if undated_after_a_run(item, saved) {
        a matches PostAction::Undated { raw_date } && opt_text(raw_date) == opt_text(item.pub_date)
    } else {
        match shown_date(item) {
            None => a is DateNotWritable,
            Some(date) => match rendered_description(item) {
                None => a is DescriptionNotRendered,
                Some(plain) => a matches PostAction::Publish { title, date: d, message } && title@
                    == text_or_empty(item.title) && d@ == date && message@ == message_of(
                    item,
                    date,
                    plain,
                ),
            },
        }
    }
}

/// The items of a sequence of steps.
pub open spec fn step_items(steps: Seq<PostStep>) -> Seq<usize> {
    steps.map_values(|s: PostStep| s.item)
}

/// The characters of an optional field, none where it is missing.
pub fn field_chars(o: &Option<String>) -> (r: Vec<char>)
    ensures
        r@ == text_or_empty(*o),
{
    match o {
        Some(s) => chars_of(s.as_str()),
        None => Vec::new(),
    }
}

/// Whether RFC 2822 can write the instant (years 0 to 9999).
pub fn is_rfc2822_writable(t: Instant) -> (r: bool)
    ensures
        r == rfc2822_writable(t),
{
    -62167219200 <= t.secs && t.secs < 253402300800
}

/// What is done with `item` when the last run has date `saved`.
pub fn plan_item(item: &FeedItem, saved: Option<Instant>) -> (a: PostAction)
    ensures
        is_planned_action(*item, opt_pair(saved), a),
{
    let date = match &item.pub_date {
        Some(s) => parse_rss_date(s.as_str()),
        None => None,
    };
    match date {
        Some(pd) => {
            match saved {
                Some(sd) => {
                    if is_not_later(pd, sd) {
                        return PostAction::AlreadyPosted;
                    }
                },
                None => {},
            }
        },
        None => {
            if saved.is_some() {
                let raw_date = match &item.pub_date {
                    Some(s) => Some(s.clone()),
                    None => None,
                };
                return PostAction::Undated { raw_date };
            }
        },
    }
    let title = field_chars(&item.title);
    let shown: Vec<char> = match date {
        Some(pd) => {
            if !is_rfc2822_writable(pd) {
                return PostAction::DateNotWritable;
            }
            match rfc2822_text(pd) {
                Some(text) => chars_of(text.as_str()),
                None => {
                    return PostAction::DateNotWritable;
                },
            }
        },
        None => field_chars(&item.pub_date),
    };
    let html = strip_empty_paragraphs(&field_chars(&item.description));
    let html_text = string_of(&html);
    let plain = match render_plain_text(html_text.as_str(), 1000) {
        Ok(p) => chars_of(p.as_str()),
        Err(e) => {
            return PostAction::DescriptionNotRendered { message: html2text_error_text(&e) };
        },
    };
    let desc = description_from_plain(&plain);
    let link = field_chars(&item.link);
    let tags = hashtags_for(&item.categories);
    let room = room_for_description(title.len(), tags.len(), shown.len());
    let fitted = fit_description(&desc, room);
    let message = compose_post(&title, &fitted, &link, &tags, &shown);
    PostAction::Publish {
        title: string_of(&title),
        date: string_of(&shown),
        message: string_of(&message),
    }
}

/// The date of the last run, read from its stored text.
pub fn read_saved_date(stored: &Option<String>) -> (r: Option<Instant>)
    ensures
        opt_pair(r) == saved_date(*stored),
        match *stored {
            Some(s) => opt_pair(r) == parsed_date(s@),
            None => r is None,
        },
{
    match stored {
        Some(s) => parse_date(s.as_str()),
        None => None,
    }
}

/// The steps of a run, given the feed's items and the stored date of the
/// last run: every item once, oldest first (a stable sort by date), each
/// with what is done with it.
pub fn plan_posts(items: &Vec<FeedItem>, stored_date: &Option<String>) -> (steps: Vec<PostStep>)
    ensures
        steps.len() == items.len(),
        is_stable_order(sort_keys(items@), step_items(steps@)),
        forall|k: int|
            0 <= k < steps.len() ==> is_planned_action(
                items@[#[trigger] steps@[k].item as int],
                saved_date(*stored_date),
                steps@[k].action,
            ),
{
    let saved = read_saved_date(stored_date);
    let order = items_oldest_first(items);
    let mut steps: Vec<PostStep> = Vec::new();
    let mut k: usize = 0;
    while k < order.len()
        invariant
            k <= order.len(),
            is_stable_order(sort_keys(items@), order@),
            steps.len() == k,
            step_items(steps@) == order@.take(k as int),
            opt_pair(saved) == saved_date(*stored_date),
            forall|j: int|
                0 <= j < k ==> is_planned_action(
                    items@[#[trigger] steps@[j].item as int],
                    saved_date(*stored_date),
                    steps@[j].action,
                ),
        decreases order.len() - k,
    {
        let i = order[k];
        assert(i < items.len());
        let action = plan_item(&items[i], saved);
        let ghost before = steps@;
        steps.push(PostStep { item: i, action });
        assert forall|j: int| 0 <= j < k + 1 implies #[trigger] step_items(steps@)[j]
            == order@.take(k + 1)[j] by {
            if j < k {
                assert(steps@[j] == before[j]);
                assert(step_items(before)[j] == order@.take(k as int)[j]);
            }
        }
        assert(step_items(steps@) =~= order@.take(k + 1));
        assert forall|j: int| 0 <= j < k + 1 implies is_planned_action(
            items@[#[trigger] steps@[j].item as int],
            saved_date(*stored_date),
            steps@[j].action,
        ) by {
            if j < k {
                assert(steps@[j] == before[j]);
            }
        }
        k += 1;
    }
    assert(order@.take(order.len() as int) =~= order@);
    steps
}

// ---------------------------------------------------------------------------
// Laws
// ---------------------------------------------------------------------------

/// An item is posted only if no run has happened yet, or if its date reads
/// and is later than the date of the last run: nothing is posted twice.
pub proof fn law_posted_only_after_last_run(
    item: FeedItem,
    saved: Option<(i64, u32)>,
    a: PostAction,
)
    requires
        is_planned_action(item, saved, a),
        a is Publish,
    ensures
        saved is Some ==> item_date(item) is Some && !not_later(
            item_date(item).unwrap(),
            saved.unwrap(),
        ),
{
}

/// The steps go oldest first: the date key of an earlier step is never
/// later than that of a later step.
pub proof fn law_steps_oldest_first(keys: Seq<(i64, u32)>, order: Seq<usize>, k: int, l: int)
    requires
        is_stable_order(keys, order),
        0 <= k < l < order.len(),
    ensures
        not_later(keys[order[k] as int], keys[order[l] as int]),
{
    assert(goes_before(keys, order[k] as int, order[l] as int));
}

/// A post fits Mastodon's limit of 490 characters (the link counting 23)
/// whenever what it holds besides the description leaves room for the
/// `"..."` of a cut description.
pub proof fn law_post_fits_limit(
    title: Seq<char>,
    desc: Seq<char>,
    link: Seq<char>,
    tags: Seq<char>,
    date: Seq<char>,
)
    requires
        counted_besides_description(title, tags, date) + 3 <= post_limit(),
    ensures
        mastodon_length(
            title,
            fitted_description(desc, description_room(title, tags, date)),
            link,
            tags,
            date,
        ) <= post_limit(),
{
    reveal_strlit("\n\n");
    reveal_strlit("\n");
    reveal_strlit("\n(");
    reveal_strlit(")");
    reveal_strlit("...");
}

/// A description that fits its room is posted whole; one that does not is
/// cut to a prefix of itself followed by `"..."`.
pub proof fn law_description_cut_only_when_too_long(desc: Seq<char>, room: int)
    requires
        room >= 0,
    ensures
        desc.len() <= room ==> fitted_description(desc, room) == desc,
        desc.len() > room ==> ({
            let cut = fitted_description(desc, room);
            &&& cut.len() >= 3
            &&& cut.subrange(0, cut.len() - 3).is_prefix_of(desc)
            &&& cut.subrange(cut.len() - 3, cut.len() as int) == "..."@
        }),
{
    reveal_strlit("...");
    if desc.len() > room {
        let keep = if room >= 3 { room - 3 } else { 0 };
        let cut = fitted_description(desc, room);
        assert(cut.subrange(0, cut.len() - 3) =~= desc.take(keep));
        assert(cut.subrange(cut.len() - 3, cut.len() as int) =~= "..."@);
    }
}

/// Every kept line of a description is non-empty and is no "Continue
/// reading..." or "Read more..." link.
pub proof fn law_kept_lines_are_clean(ls: Seq<Seq<char>>)
    ensures
        forall|i: int| 0 <= i < kept_lines(ls).len() ==> keep_line(#[trigger] kept_lines(ls)[i]),
    decreases ls.len(),
{
    if ls.len() > 0 {
        law_kept_lines_are_clean(ls.drop_last());
        let prev = kept_lines(ls.drop_last());
        if keep_line(trim(ls.last())) {
            assert forall|i: int| 0 <= i < kept_lines(ls).len() implies keep_line(
                #[trigger] kept_lines(ls)[i],
            ) by {
                if i < prev.len() {
                    assert(kept_lines(ls)[i] == prev[i]);
                }
            }
        }
    }
}

/// Removing the spaces of a name leaves none.
proof fn lemma_no_space_left(s: Seq<char>)
    ensures
        !replace_all(s, " "@, seq![]).contains(' '),
    decreases s.len(),
{
    reveal_strlit(" ");
    if s.len() > 0 {
        if " "@.is_prefix_of(s) {
            lemma_no_space_left(s.skip(1));
            assert(replace_all(s, " "@, seq![]) =~= replace_all(s.skip(1), " "@, seq![]));
        } else {
            lemma_no_space_left(s.drop_first());
            assert(s[0] != ' ') by {
                if s[0] == ' ' {
                    assert(s.subrange(0, 1) =~= " "@);
                }
            }
            let rest = replace_all(s.drop_first(), " "@, seq![]);
            assert(replace_all(s, " "@, seq![]) == seq![s[0]] + rest);
            assert forall|i: int| 0 <= i < (seq![s[0]] + rest).len() implies (seq![s[0]]
                + rest)[i] != ' ' by {
                if i > 0 {
                    assert((seq![s[0]] + rest)[i] == rest[i - 1]);
                }
            }
        }
    }
}

/// Every category hashtag is `'#'` followed by at least one character,
/// none of them a space.
proof fn lemma_category_tags_shape(names: Seq<Seq<char>>)
    ensures
        forall|i: int| 0 <= i < category_tags(names).len() ==> {
            let t = #[trigger] category_tags(names)[i];
            &&& t.len() > 1
            &&& t[0] == '#'
            &&& forall|j: int| 1 <= j < t.len() ==> t[j] != ' '
        },
    decreases names.len(),
{
    reveal_strlit("#");
    if names.len() > 0 {
        lemma_category_tags_shape(names.drop_last());
        let name = names.last();
        let rest = replace_all(name, " "@, seq![]);
        lemma_no_space_left(name);
        assert forall|j: int| 1 <= j < category_tag(name).len() implies category_tag(name)[j]
            != ' ' by {
            assert(category_tag(name)[j] == rest[j - 1]);
        }
        let prev = category_tags(names.drop_last());
        if category_tag(name).len() > 1 {
            assert forall|i: int| 0 <= i < category_tags(names).len() implies {
                let t = #[trigger] category_tags(names)[i];
                &&& t.len() > 1
                &&& t[0] == '#'
                &&& forall|j: int| 1 <= j < t.len() ==> t[j] != ' '
            } by {
                if i < prev.len() {
                    assert(category_tags(names)[i] == prev[i]);
                } else {
                    assert(category_tags(names)[i] == category_tag(name));
                }
            }
        }
    }
}

/// The hashtags of a post: at most six, each `'#'` followed by at least one
/// character and no space, the last one `#TheGuardian`.
pub proof fn law_hashtags_shape(names: Seq<Seq<char>>)
    ensures
        hashtags(names).len() <= 6,
        hashtags(names).last() == guardian_tag(),
        forall|i: int| 0 <= i < hashtags(names).len() ==> {
            let t = #[trigger] hashtags(names)[i];
            &&& t.len() > 1
            &&& t[0] == '#'
            &&& forall|j: int| 1 <= j < t.len() ==> t[j] != ' '
        },
{
    reveal_strlit("#TheGuardian");
    lemma_category_tags_shape(names);
    let tags = category_tags(names);
    let five = first_five(tags);
    assert forall|i: int| 0 <= i < five.len() implies five[i] == tags[i] by {}
}

/// `n` has a character other than a space.
pub open spec fn has_non_space(n: Seq<char>) -> bool {
    exists|j: int| 0 <= j < n.len() && #[trigger] n[j] != ' '
}

/// A name with a character other than a space keeps one after its spaces
/// are removed.
proof fn lemma_non_space_survives(s: Seq<char>, j: int)
    requires
        0 <= j < s.len(),
        s[j] != ' ',
    ensures
        replace_all(s, " "@, seq![]).len() > 0,
    decreases s.len(),
{
    reveal_strlit(" ");
    if " "@.is_prefix_of(s) {
        assert(s[0] == " "@[0]) by {
            assert(s.subrange(0, 1)[0] == s[0]);
        }
        assert(j > 0);
        assert(s.skip(1)[j - 1] == s[j]);
        lemma_non_space_survives(s.skip(1), j - 1);
        assert(replace_all(s, " "@, seq![]) =~= replace_all(s.skip(1), " "@, seq![]));
    } else {
        assert(replace_all(s, " "@, seq![]) == seq![s[0]] + replace_all(
            s.drop_first(),
            " "@,
            seq![],
        ));
    }
}

/// Where every name has a character other than a space, each name gives a
/// tag: `'#'` and the name without its spaces, in order.
proof fn lemma_every_named_category_tagged(names: Seq<Seq<char>>)
    requires
        forall|i: int| 0 <= i < names.len() ==> has_non_space(#[trigger] names[i]),
    ensures
        category_tags(names) == names.map_values(
            |n: Seq<char>| "#"@ + replace_all(n, " "@, seq![]),
        ),
    decreases names.len(),
{
    reveal_strlit("#");
    if names.len() > 0 {
        let rest = names.drop_last();
        assert forall|i: int| 0 <= i < rest.len() implies has_non_space(#[trigger] rest[i]) by {
            assert(rest[i] == names[i]);
        }
        lemma_every_named_category_tagged(rest);
        let last = names.last();
        assert(has_non_space(names[names.len() - 1]));
        let j = choose|j: int| 0 <= j < last.len() && #[trigger] last[j] != ' ';
        lemma_non_space_survives(last, j);
        assert(category_tag(last).len() > 1);
        assert(category_tags(names) =~= names.map_values(
            |n: Seq<char>| "#"@ + replace_all(n, " "@, seq![]),
        ));
    } else {
        assert(category_tags(names) =~= names.map_values(
            |n: Seq<char>| "#"@ + replace_all(n, " "@, seq![]),
        ));
    }
}

/// For at most five categories, each with a character other than a space
/// in its name, the hashtags are exactly `'#'` followed by each name with
/// its spaces removed, in feed order, then `#TheGuardian`.
pub proof fn law_hashtags_of_named_categories(names: Seq<Seq<char>>)
    requires
        names.len() <= 5,
        forall|i: int| 0 <= i < names.len() ==> has_non_space(#[trigger] names[i]),
    ensures
        hashtags(names) == names.map_values(
            |n: Seq<char>| "#"@ + replace_all(n, " "@, seq![]),
        ).push("#TheGuardian"@),
        hashtags(names) == names.map_values(
            |n: Seq<char>| "#"@ + n.filter(|x: char| x != ' '),
        ).push("#TheGuardian"@),
{
    lemma_every_named_category_tagged(names);
    reveal_strlit(" ");
    assert(" "@ =~= seq![' ']);
    assert forall|i: int| 0 <= i < names.len() implies replace_all(names[i], " "@, seq![])
        == names[i].filter(|x: char| x != ' ') by {
        law_remove_char(names[i], ' ');
    }
    assert(names.map_values(|n: Seq<char>| "#"@ + replace_all(n, " "@, seq![])) =~= names.map_values(
        |n: Seq<char>| "#"@ + n.filter(|x: char| x != ' '),
    ));
}

/// The date of the last run is the date that `parse_date` reads from the
/// stored text.
pub proof fn law_saved_date_is_parse_date(stored: Option<String>)
    ensures
        match stored {
            Some(s) => saved_date(stored) == parsed_date(s@),
            None => saved_date(stored) is None,
        },
{
}

/// An item whose date is not later than the date `parse_date` reads from
/// the stored text is not posted again.
pub proof fn law_items_not_after_stored_date_are_skipped(
    item: FeedItem,
    stored: String,
    a: PostAction,
)
    requires
        is_planned_action(item, saved_date(Some(stored)), a),
        item_date(item) is Some,
        parsed_date(stored@) is Some,
        not_later(item_date(item).unwrap(), parsed_date(stored@).unwrap()),
    ensures
        a is AlreadyPosted,
{
}

/// A description that fits is posted whole; one that does not is cut so
/// that the post counts exactly 490 characters on Mastodon (the link
/// counting 23), where what it holds besides the description leaves room
/// for `"..."`. The lengths are counted directly: title, 23 for the link,
/// hashtags, date and the 8 characters of line breaks and parentheses.
pub proof fn law_description_uses_all_room(
    title: Seq<char>,
    desc: Seq<char>,
    link: Seq<char>,
    tags: Seq<char>,
    date: Seq<char>,
)
    ensures
        title.len() + 23 + tags.len() + date.len() + 8 + desc.len() <= 490 ==> fitted_description(
            desc,
            description_room(title, tags, date),
        ) == desc,
        title.len() + 23 + tags.len() + date.len() + 8 + 3 <= 490 && title.len() + 23 + tags.len()
            + date.len() + 8 + desc.len() > 490 ==> post_text(
            title,
            fitted_description(desc, description_room(title, tags, date)),
            link,
            tags,
            date,
        ).len() - link.len() + 23 == 490,
        mastodon_length(title, desc, link, tags, date) == post_text(
            title,
            desc,
            link,
            tags,
            date,
        ).len() - link.len() + 23,
        post_text(title, desc, link, tags, date).len() == title.len() + desc.len() + link.len()
            + tags.len() + date.len() + 8,
{
    reveal_strlit("\n\n");
    reveal_strlit("\n");
    reveal_strlit("\n(");
    reveal_strlit(")");
    reveal_strlit("...");
}

/// Text without line breaks from position `i` on makes a single line.
proof fn lemma_lines_scan_single(s: Seq<char>, start: int, i: int)
    requires
        0 <= start <= i <= s.len(),
        forall|k: int| i <= k < s.len() ==> s[k] != '\n',
    ensures
        lines_scan(s, start, i) == if start < s.len() {
            seq![s.subrange(start, s.len() as int)]
        } else {
            Seq::<Seq<char>>::empty()
        },
    decreases s.len() - i,
{
    if i < s.len() {
        lemma_lines_scan_single(s, start, i + 1);
    }
}

/// A description rendered as a single line that is no "Continue
/// reading..." or "Read more..." link is posted as that line, trimmed.
pub proof fn law_single_line_description(plain: Seq<char>)
    requires
        forall|k: int| 0 <= k < trim(plain).len() ==> trim(plain)[k] != '\n',
        trim(plain).len() > 0,
        !contains_text(trim(plain), "Continue reading..."@),
        !contains_text(trim(plain), "Read more..."@),
    ensures
        description_of(plain) == trim(plain),
{
    let t = trim(plain);
    lemma_lines_scan_single(t, 0, 0);
    assert(t.subrange(0, t.len() as int) =~= t);
    assert(lines(t) == seq![t]);
    law_trim_idempotent(plain);
    let ls = seq![t];
    assert(ls.drop_last() =~= Seq::<Seq<char>>::empty());
    assert(kept_lines(ls) == kept_lines(ls.drop_last()).push(t));
    assert(kept_lines(ls) =~= seq![t]);
}

/// Scanning past characters that are no line break does not change the lines.
proof fn lemma_lines_scan_skip(s: Seq<char>, start: int, i: int, j: int)
    requires
        0 <= start <= i <= j <= s.len(),
        forall|k: int| i <= k < j ==> s[k] != '\n',
    ensures
        lines_scan(s, start, i) == lines_scan(s, start, j),
    decreases j - i,
{
    if i < j {
        lemma_lines_scan_skip(s, start, i + 1, j);
    }
}

/// Two lines joined by a line break are read back as those two lines, the
/// first without a `'\r'` that ended it.
pub proof fn law_two_lines(a: Seq<char>, b: Seq<char>)
    requires
        forall|k: int| 0 <= k < a.len() ==> a[k] != '\n',
        forall|k: int| 0 <= k < b.len() ==> b[k] != '\n',
        b.len() > 0,
    ensures
        lines(a + seq!['\n'] + b) == seq![
            if a.len() > 0 && a.last() == '\r' { a.drop_last() } else { a },
            b,
        ],
{
    let s = a + seq!['\n'] + b;
    let n = a.len() as int;
    assert forall|k: int| 0 <= k < n implies s[k] != '\n' by {
        assert(s[k] == a[k]);
    }
    lemma_lines_scan_skip(s, 0, 0, n);
    assert(s[n] == '\n');
    assert(s.subrange(0, n) =~= a);
    assert forall|k: int| n + 1 <= k < s.len() implies s[k] != '\n' by {
        assert(s[k] == b[k - n - 1]);
    }
    lemma_lines_scan_single(s, n + 1, n + 1);
    assert(s.subrange(n + 1, s.len() as int) =~= b);
    assert(lines(s) =~= seq![strip_cr(a)] + seq![b]);
}

/// An item dated after the last run (or any item before the first run) is
/// posted, unless its date cannot be written or its description cannot be
/// rendered; an undated item is skipped once a run has happened.
pub proof fn law_which_items_are_posted(item: FeedItem, saved: Option<(i64, u32)>, a: PostAction)
    requires
        is_planned_action(item, saved, a),
    ensures
        item_date(item) is None && saved is Some ==> a is Undated,
        (saved is None || (item_date(item) is Some && !not_later(
            item_date(item).unwrap(),
            saved.unwrap(),
        ))) && shown_date(item) is Some && rendered_description(item) is Some ==> a is Publish,
{
}

} // verus!
