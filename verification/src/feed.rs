//! The RSS feed: the request that fetches it, the items read from it, and
//! the order, oldest first, in which the items are considered.

use vstd::prelude::*;
use crate::text::{chars_of, opt_text, string_of, trim, trimmed};
use crate::dates::{
    chrono_min_secs, chrono_min_utc, not_later, parse_rss_date, parsed_date, Instant,
};

verus! {

/// What the bot reads of an RSS item.
#[derive(Debug)]
pub struct FeedItem {
    pub title: Option<String>,
    pub link: Option<String>,
    pub description: Option<String>,
    pub pub_date: Option<String>,
    /// The names of the item's categories, in feed order.
    pub categories: Vec<String>,
}

/// An item as plain values: title, link, description, publication date and
/// category names.
pub type FeedItemFields = (
    Option<Seq<char>>,
    Option<Seq<char>>,
    Option<Seq<char>>,
    Option<Seq<char>>,
    Seq<Seq<char>>,
);

impl View for FeedItem {
    type V = FeedItemFields;

    open spec fn view(&self) -> FeedItemFields {
        (
            opt_text(self.title),
            opt_text(self.link),
            opt_text(self.description),
            opt_text(self.pub_date),
            self.categories@.map_values(|c: String| c@),
        )
    }
}

/// The items that `rss::Channel::read_from` finds in `content`, in feed
/// order, or `None` where it reports an error.
pub uninterp spec fn rss_channel_items(content: Seq<u8>) -> Option<Seq<FeedItemFields>>;

/// The error that `rss::Channel::read_from` reports.
#[verifier::external_type_specification]
#[verifier::external_body]
pub struct ExRssError(rss::Error);

/// Why the feed could not be read.
pub enum FeedError {
    /// The content is not an RSS channel; `message` is rss's account of why.
    NotRss { message: String },
}

/// `ToString::to_string` of rss's error (its `Display`). Nothing is
/// claimed of the text.
#[verifier::external_body]
fn rss_error_text(e: &rss::Error) -> String {
    e.to_string()
}

/// `rss::Channel::read_from` over the fetched bytes, keeping of each item
/// the fields the bot reads. Claims that the items are the named ones.
#[verifier::external_body]
fn read_rss_channel(content: &[u8]) -> (r: Result<Vec<FeedItem>, rss::Error>)
    ensures
        r is Ok <==> rss_channel_items(content@) is Some,
        r matches Ok(items) ==> items@.map_values(|i: FeedItem| i@)
            == rss_channel_items(content@).unwrap(),
{
    match rss::Channel::read_from(content) {
        Ok(channel) => Ok(
            channel.items.into_iter().map(
                |i| FeedItem {
                    title: i.title,
                    link: i.link,
                    description: i.description,
                    pub_date: i.pub_date,
                    categories: i.categories.into_iter().map(|c| c.name).collect(),
                },
            ).collect(),
        ),
        Err(e) => Err(e),
    }
}

/// The items of the fetched feed, in feed order.
pub fn read_feed(content: &[u8]) -> (r: Result<Vec<FeedItem>, FeedError>)
    ensures
        r is Ok <==> rss_channel_items(content@) is Some,
        r matches Ok(items) ==> items@.map_values(|i: FeedItem| i@)
            == rss_channel_items(content@).unwrap(),
        r matches Err(e) ==> e is NotRss,
{
    match read_rss_channel(content) {
        Ok(items) => Ok(items),
        Err(e) => Err(FeedError::NotRss { message: rss_error_text(&e) }),
    }
}

// ---------------------------------------------------------------------------
// The request for the feed
// ---------------------------------------------------------------------------

/// The user agent sent when none is configured.
pub open spec fn default_user_agent() -> Seq<char> {
    "Mozilla/5.0 (Windows NT 10.0; Win64; x64; rv:125.0) Gecko/20100101 Firefox/125.0"@
}

/// The headers of the feed request, `configured_agent` being the configured
/// user agent, if any.
pub open spec fn feed_header_list(configured_agent: Option<Seq<char>>) -> Seq<(Seq<char>, Seq<char>)> {
    seq![
        ("User-Agent"@, match configured_agent { Some(a) => a, None => default_user_agent() }),
        ("Accept"@, "text/html,application/xhtml+xml,application/xml;q=0.9,image/avif,image/webp,image/apng,*/*;q=0.8"@),
        ("Accept-Language"@, "en-US,en;q=0.9"@),
        ("Cache-Control"@, "max-age=0"@),
        ("Upgrade-Insecure-Requests"@, "1"@),
    ]
}

/// The view of a list of headers.
pub open spec fn header_view(h: Seq<(String, String)>) -> Seq<(Seq<char>, Seq<char>)> {
    h.map_values(|p: (String, String)| (p.0@, p.1@))
}

/// Appends a header.
pub fn push_header(headers: &mut Vec<(String, String)>, name: &str, value: String)
    ensures
        header_view(final(headers)@) == header_view(old(headers)@).push((name@, value@)),
{
    let ghost before = headers@;
    headers.push((name.to_owned(), value));
    assert(header_view(headers@) =~= header_view(before).push((name@, value@)));
}

/// The headers of the feed request; `user_agent` is the configured user
/// agent, if any (a browser's is sent otherwise).
pub fn feed_headers(user_agent: Option<String>) -> (r: Vec<(String, String)>)
    ensures
        header_view(r@) == feed_header_list(opt_text(user_agent)),
{
    let agent = match user_agent {
        Some(a) => a,
        None => "Mozilla/5.0 (Windows NT 10.0; Win64; x64; rv:125.0) Gecko/20100101 Firefox/125.0".to_owned(),
    };
    let mut r: Vec<(String, String)> = Vec::new();
    push_header(&mut r, "User-Agent", agent);
    push_header(
        &mut r,
        "Accept",
        "text/html,application/xhtml+xml,application/xml;q=0.9,image/avif,image/webp,image/apng,*/*;q=0.8".to_owned(),
    );
    push_header(&mut r, "Accept-Language", "en-US,en;q=0.9".to_owned());
    push_header(&mut r, "Cache-Control", "max-age=0".to_owned());
    push_header(&mut r, "Upgrade-Insecure-Requests", "1".to_owned());
    assert(header_view(r@) =~= feed_header_list(opt_text(user_agent)));
    r
}

// ---------------------------------------------------------------------------
// The order of the items
// ---------------------------------------------------------------------------

/// The publication date of an item, where it has one that reads.
pub open spec fn item_date(item: FeedItem) -> Option<(i64, u32)> {
    match item.pub_date {
        Some(s) => parsed_date(s@),
        None => None,
    }
}

/// The key by which items are ordered: the publication date, or chrono's
/// earliest instant where there is none that reads.
pub open spec fn sort_key(item: FeedItem) -> (i64, u32) {
    match item_date(item) {
        Some(p) => p,
        None => (chrono_min_secs() as i64, 0u32),
    }
}

/// The sort keys of `items`.
pub open spec fn sort_keys(items: Seq<FeedItem>) -> Seq<(i64, u32)> {
    items.map_values(|i: FeedItem| sort_key(i))
}

/// The pairs of a sequence of instants.
pub open spec fn pairs_of(ts: Seq<Instant>) -> Seq<(i64, u32)> {
    ts.map_values(|t: Instant| t.pair())
}

/// `a` is strictly earlier than `b`.
pub open spec fn earlier(a: (i64, u32), b: (i64, u32)) -> bool {
    a.0 < b.0 || (a.0 == b.0 && a.1 < b.1)
}

/// Position `i` goes before position `j` in a stable sort by `keys`: its
/// key is earlier, or the keys are equal and `i` came first.
pub open spec fn goes_before(keys: Seq<(i64, u32)>, i: int, j: int) -> bool {
    earlier(keys[i], keys[j]) || (keys[i] == keys[j] && i < j)
}

/// `order` lists each position of `keys` once, in the order of a stable
/// sort by key: ascending keys, equal keys in the order of the feed.
pub open spec fn is_stable_order(keys: Seq<(i64, u32)>, order: Seq<usize>) -> bool {
    &&& order.len() == keys.len()
    &&& forall|k: int| 0 <= k < order.len() ==> #[trigger] order[k] < keys.len()
    &&& forall|i: int| 0 <= i < keys.len() ==> #[trigger] order.contains(i as usize)
    &&& forall|k: int, l: int|
        0 <= k < l < order.len() ==> goes_before(keys, #[trigger] order[k] as int, #[trigger] order[l] as int)
}

/// The positions of `keys` in the order of a stable sort by key, as
/// `slice::sort_by_key` leaves them.
pub fn stable_order(keys: &Vec<Instant>) -> (order: Vec<usize>)
    ensures
        is_stable_order(pairs_of(keys@), order@),
{
    let ghost ks = pairs_of(keys@);
    let n = keys.len();
    let mut order: Vec<usize> = Vec::new();
    let mut i: usize = 0;
    while i < n
        invariant
            n == keys.len(),
            ks == pairs_of(keys@),
            i <= n,
            order.len() == i,
            forall|k: int| 0 <= k < order.len() ==> #[trigger] order@[k] < i,
            forall|j: int| 0 <= j < i ==> #[trigger] order@.contains(j as usize),
            forall|k: int, l: int|
                0 <= k < l < order.len() ==> goes_before(ks, #[trigger] order@[k] as int, #[trigger] order@[l] as int),
        decreases n - i,
    {
        let key = keys[i];
        // The first position whose key is later than the new one.
        let mut p: usize = 0;
        while p < order.len() && is_not_later_at(keys, order[p], key)
            invariant
                n == keys.len(),
                ks == pairs_of(keys@),
                i < n,
                key == keys@[i as int],
                p <= order.len(),
                forall|k: int| 0 <= k < order.len() ==> #[trigger] order@[k] < i,
                forall|q: int| 0 <= q < p ==> not_later(#[trigger] ks[order@[q] as int], ks[i as int]),
            decreases order.len() - p,
        {
            p += 1;
        }
        let ghost before = order@;
        order.insert(p, i);
        proof {
            assert(order@ == before.insert(p as int, i));
            assert forall|k: int| 0 <= k < order.len() implies #[trigger] order@[k] < i + 1 by {
                if k < p {
                    assert(order@[k] == before[k]);
                } else if k > p {
                    assert(order@[k] == before[k - 1]);
                }
            }
            assert forall|j: int| 0 <= j < i + 1 implies #[trigger] order@.contains(j as usize) by {
                if j == i {
                    assert(order@[p as int] == i);
                } else {
                    assert(before.contains(j as usize));
                    let w = choose|w: int| 0 <= w < before.len() && before[w] == j as usize;
                    if w < p {
                        assert(order@[w] == j as usize);
                    } else {
                        assert(order@[w + 1] == j as usize);
                    }
                }
            }
            assert forall|k: int, l: int| 0 <= k < l < order.len() implies goes_before(
                ks,
                #[trigger] order@[k] as int,
                #[trigger] order@[l] as int,
            ) by {
                if k < p && l < p {
                    assert(order@[k] == before[k] && order@[l] == before[l]);
                } else if k < p && l == p {
                    assert(order@[k] == before[k]);
                    assert(not_later(ks[before[k] as int], ks[i as int]));
                } else if k < p && l > p {
                    assert(order@[k] == before[k] && order@[l] == before[l - 1]);
                } else if k == p {
                    // the key at `before[l - 1]` is later than the new key
                    assert(order@[l] == before[l - 1]);
                    assert(!not_later(ks[before[p as int] as int], ks[i as int]));
                    if l - 1 > p {
                        assert(goes_before(ks, before[p as int] as int, before[l - 1] as int));
                    }
                } else {
                    assert(order@[k] == before[k - 1] && order@[l] == before[l - 1]);
                }
            }
        }
        i += 1;
    }
    order
}

/// Two stable orders of the same keys agree on their first `k` positions.
proof fn lemma_stable_orders_agree_up_to(
    keys: Seq<(i64, u32)>,
    o1: Seq<usize>,
    o2: Seq<usize>,
    k: int,
)
    requires
        is_stable_order(keys, o1),
        is_stable_order(keys, o2),
        0 <= k <= o1.len(),
    ensures
        forall|j: int| 0 <= j < k ==> o1[j] == o2[j],
    decreases k,
{
    if k > 0 {
        lemma_stable_orders_agree_up_to(keys, o1, o2, k - 1);
        let i = k - 1;
        let a = o1[i];
        let b = o2[i];
        if a != b {
            assert(a < keys.len() && b < keys.len());
            assert(o2.contains((a as int) as usize));
            let p = choose|p: int| 0 <= p < o2.len() && o2[p] == a;
            assert(o1.contains((b as int) as usize));
            let q = choose|q: int| 0 <= q < o1.len() && o1[q] == b;
            if p < i {
                assert(o1[p] == a);
                assert(goes_before(keys, o1[p] as int, o1[i] as int));
            } else if q < i {
                assert(o2[q] == b);
                assert(goes_before(keys, o2[q] as int, o2[i] as int));
            } else {
                assert(p > i && q > i);
                assert(goes_before(keys, o2[i] as int, o2[p] as int));
                assert(goes_before(keys, o1[i] as int, o1[q] as int));
            }
        }
    }
}

/// A stable sort has one outcome: two orders that both list every position
/// once, ascending by key and keeping equal keys in the order of the feed,
/// are the same order.
pub proof fn law_stable_order_unique(keys: Seq<(i64, u32)>, o1: Seq<usize>, o2: Seq<usize>)
    requires
        is_stable_order(keys, o1),
        is_stable_order(keys, o2),
    ensures
        o1 == o2,
{
    lemma_stable_orders_agree_up_to(keys, o1, o2, o1.len() as int);
    assert(o1 =~= o2);
}

/// Whether the key at position `j` is not later than `key`.
fn is_not_later_at(keys: &Vec<Instant>, j: usize, key: Instant) -> (r: bool)
    requires
        j < keys.len(),
    ensures
        r == not_later(keys@[j as int].pair(), key.pair()),
{
    let a = keys[j];
    a.secs < key.secs || (a.secs == key.secs && a.nanos <= key.nanos)
}

/// The sort key of an item: its publication date, or chrono's earliest
/// instant where it has none that reads.
pub fn item_sort_key(item: &FeedItem) -> (r: Instant)
    ensures
        r.pair() == sort_key(*item),
{
    let date = match &item.pub_date {
        Some(s) => parse_rss_date(s.as_str()),
        None => None,
    };
    match date {
        Some(t) => t,
        None => chrono_min_utc(),
    }
}

/// The order, oldest first, in which the items are considered: a stable
/// sort by publication date, items without a date that reads counting as
/// chrono's earliest instant.
pub fn items_oldest_first(items: &Vec<FeedItem>) -> (order: Vec<usize>)
    ensures
        is_stable_order(sort_keys(items@), order@),
{
    let mut keys: Vec<Instant> = Vec::new();
    let mut i: usize = 0;
    while i < items.len()
        invariant
            i <= items.len(),
            keys.len() == i,
            pairs_of(keys@) == sort_keys(items@).take(i as int),
        decreases items.len() - i,
    {
        let k = item_sort_key(&items[i]);
        let ghost before = keys@;
        keys.push(k);
        assert forall|j: int| 0 <= j < i + 1 implies #[trigger] pairs_of(keys@)[j]
            == sort_keys(items@).take(i + 1)[j] by {
            assert(keys@[j] == if j < i { before[j] } else { k });
            assert(sort_keys(items@)[j] == sort_key(items@[j]));
            if j < i {
                assert(pairs_of(before)[j] == sort_keys(items@).take(i as int)[j]);
            }
        }
        assert(pairs_of(keys@) =~= sort_keys(items@).take(i + 1));
        i += 1;
    }
    assert(sort_keys(items@).take(items.len() as int) =~= sort_keys(items@));
    stable_order(&keys)
}

// ---------------------------------------------------------------------------
// Where the feed and the last run's date are found
// ---------------------------------------------------------------------------

/// The feed read when none is configured.
pub open spec fn default_feed_url() -> Seq<char> {
    "https://www.theguardian.com/world/rss"@
}

/// The address of the feed: the configured one (or the default), trimmed.
pub open spec fn feed_url_of(configured: Option<Seq<char>>) -> Seq<char> {
    trim(
        match configured {
            Some(c) => c,
            None => default_feed_url(),
        },
    )
}

/// The address of the feed, `configured` being the configured one, if any.
pub fn feed_url(configured: Option<String>) -> (r: String)
    ensures
        r@ == feed_url_of(opt_text(configured)),
{
    let raw = match configured {
        Some(c) => chars_of(c.as_str()),
        None => chars_of("https://www.theguardian.com/world/rss"),
    };
    string_of(&trimmed(&raw))
}

/// The key under which the date of the last run is stored.
pub open spec fn last_run_key_text() -> Seq<char> {
    "theguardian-rss.last_build_date"@
}

/// The key under which the date of the last run is stored.
pub fn last_run_key() -> (r: String)
    ensures
        r@ == last_run_key_text(),
{
    "theguardian-rss.last_build_date".to_owned()
}

/// An item with a date that reads is ordered by that date, and an item
/// without one goes no later than it (chrono has no earlier instant than
/// the one undated items count as).
pub proof fn law_sort_key(undated: FeedItem, dated: FeedItem)
    requires
        item_date(undated) is None,
        item_date(dated) is Some,
        chrono_min_secs() <= item_date(dated).unwrap().0,
    ensures
        sort_key(dated) == item_date(dated).unwrap(),
        not_later(sort_key(undated), sort_key(dated)),
{
}

} // verus!
