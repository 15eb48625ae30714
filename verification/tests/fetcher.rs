use my_quick_feed::error::AppError;
use my_quick_feed::fetcher::fetch::{normalize_feed_url, rate_limit_wait_secs, FeedCache, FeedFetch, FetchStep};
use my_quick_feed::fetcher::rss::{parse_feed, strip_xml_header, Feed};
use my_quick_feed::fetcher::rsshub::{build_rsshub_url, twitter_user_path, DEFAULT_RSSHUB_URL};
use my_quick_feed::fetcher::date::parse_date;

#[test]
fn test_rsshub_url_join() {
    assert_eq!(
        build_rsshub_url("https://rsshub.app", "/twitter/user/PlayApex"),
        "https://rsshub.app/twitter/user/PlayApex"
    );
    assert_eq!(
        build_rsshub_url("https://rsshub.app/", "twitter/user/PlayApex"),
        "https://rsshub.app/twitter/user/PlayApex"
    );
    assert_eq!(
        build_rsshub_url("https://rsshub.app", "https://rsshub.app/twitter/user/PlayApex"),
        "https://rsshub.app/twitter/user/PlayApex"
    );
}

#[test]
fn rsshub_url_collapses_repeated_slashes() {
    assert_eq!(build_rsshub_url("https://x.example//", "//a/b"), "https://x.example/a/b");
    assert_eq!(build_rsshub_url("https://x.example", "http://other/feed"), "http://other/feed");
}

#[test]
fn twitter_route_and_default_instance() {
    assert_eq!(twitter_user_path("PlayApex"), "twitter/user/PlayApex");
    assert_eq!(DEFAULT_RSSHUB_URL, "https://rsshub.app");
}

const RSS_DOC: &str = "\u{feff}<?xml version=\"1.0\" encoding=\"UTF-8\"?>\n<!DOCTYPE rss>\n<rss version=\"2.0\"><channel>\
<item><title>First</title><link>https://a.example/1</link><description>One</description>\
<pubDate>Mon, 01 Jan 2024 00:00:00 +0000</pubDate><guid>g1</guid></item>\
<item><title>Second &amp; more</title><link>https://a.example/2</link></item>\
<item><title><![CDATA[Only CDATA]]></title><link>https://a.example/3</link></item>\
<item><title>No link</title></item>\
</channel></rss>";

#[test]
fn parses_rss_items_in_order() {
    let feed = parse_feed(RSS_DOC).unwrap();
    assert!(feed.title.is_none());
    assert_eq!(feed.items.len(), 2);
    assert_eq!(feed.items[0].title, "First");
    assert_eq!(feed.items[0].link, "https://a.example/1");
    assert_eq!(feed.items[0].description.as_deref(), Some("One"));
    assert_eq!(feed.items[0].guid.as_deref(), Some("g1"));
    let d = feed.items[0].pub_date.unwrap();
    assert_eq!(d.secs, 1704067200);
    assert_eq!(feed.items[1].title, "Second & more");
    assert_eq!(feed.items[1].link, "https://a.example/2");
    assert!(feed.items[1].pub_date.is_none());
}

#[test]
fn parses_atom_entries() {
    let doc = "<feed xmlns=\"http://www.w3.org/2005/Atom\">\
<entry><title>E1</title><link href=\"https://b.example/e1\"/><summary>S1</summary>\
<updated>2024-01-02T03:04:05Z</updated><id>id1</id></entry></feed>";
    let feed = parse_feed(doc).unwrap();
    assert!(feed.title.is_none());
    assert_eq!(feed.items.len(), 1);
    assert_eq!(feed.items[0].title, "E1");
    assert_eq!(feed.items[0].link, "https://b.example/e1");
    assert_eq!(feed.items[0].description.as_deref(), Some("S1"));
    assert_eq!(feed.items[0].pub_date.unwrap().secs, 1704164645);
}

#[test]
fn channel_text_stays_out_of_items() {
    let doc = "<rss><channel><title>C</title><link>https://c</link><item><title>T</title><link>https://x/t</link></item></channel></rss>";
    let feed = parse_feed(doc).unwrap();
    assert_eq!(feed.items.len(), 1);
    assert_eq!(feed.items[0].title, "T");
    assert_eq!(feed.items[0].link, "https://x/t");
}

#[test]
fn feed_title_stays_out_of_entries() {
    let doc = "<feed><title>F</title><entry><title>A</title><link href=\"https://x/a\"/></entry></feed>";
    let feed = parse_feed(doc).unwrap();
    assert_eq!(feed.items.len(), 1);
    assert_eq!(feed.items[0].title, "A");
    assert_eq!(feed.items[0].link, "https://x/a");
}

#[test]
fn doctype_without_declaration_parses() {
    let feed = parse_feed("<!DOCTYPE rss>\n<rss><channel><item><title>T</title><link>L</link></item></channel></rss>").unwrap();
    assert_eq!(feed.items[0].link, "L");
}

#[test]
fn bom_and_declaration_change_nothing() {
    let doc = "<rss><channel><item><title>T</title><link>L</link></item></channel></rss>";
    let plain = parse_feed(doc).unwrap();
    let marked = parse_feed(&format!("\u{feff}<?xml version='1.0'?>\n{}", doc)).unwrap();
    assert_eq!(plain.items.len(), marked.items.len());
    assert_eq!(plain.items[0].title, marked.items[0].title);
    let bad = "<html/>";
    match (parse_feed(bad), parse_feed(&format!("\u{feff}<?xml version='1.0'?>\n{}", bad))) {
        (Err(AppError::RssParse(a)), Err(AppError::RssParse(b))) => assert_eq!(a, b),
        _ => panic!(),
    }
}

#[test]
fn unknown_format_is_rejected_with_preview() {
    match parse_feed("  <html>nope</html>") {
        Err(AppError::RssParse(m)) => assert_eq!(m, "Unknown feed format (preview): <html>nope</html>"),
        _ => panic!("expected a parse error"),
    }
}

#[test]
fn xml_header_and_doctype_are_stripped() {
    assert_eq!(strip_xml_header("  <?xml version=\"1.0\"?>\n <!DOCTYPE x>\n<rss/>"), "<rss/>");
    assert_eq!(strip_xml_header("<rss/>"), "<rss/>");
    assert_eq!(strip_xml_header("<?xml version=\"1.0\"?><feed/>"), "<feed/>");
    assert_eq!(strip_xml_header("<!DOCTYPE rss><rss/>"), "<rss/>");
    assert_eq!(strip_xml_header("  <!DOCTYPE rss>\n  <rss/>"), "<rss/>");
}

#[test]
fn dates_in_several_layouts() {
    assert_eq!(parse_date("Mon, 01 Jan 2024 00:00:00 GMT").unwrap().secs, 1704067200);
    assert_eq!(parse_date(" 2024-01-01T00:00:00+09:00 ").unwrap().secs, 1704034800);
    assert!(parse_date("").is_none());
    assert!(parse_date("yesterday").is_none());
}

#[test]
fn reddit_http_is_upgraded() {
    assert_eq!(normalize_feed_url("http://www.reddit.com/r/x/.rss"), "https://www.reddit.com/r/x/.rss");
    assert_eq!(normalize_feed_url("http://reddit.com/r/x/.rss"), "https://reddit.com/r/x/.rss");
    assert_eq!(normalize_feed_url("http://example.com/feed"), "http://example.com/feed");
}

#[test]
fn rate_limit_wait_prefers_headers() {
    assert_eq!(rate_limit_wait_secs(Some("7"), Some("9"), 0), 7);
    assert_eq!(rate_limit_wait_secs(Some("soon"), Some("9"), 0), 9);
    assert_eq!(rate_limit_wait_secs(None, None, 2), 15);
    assert_eq!(rate_limit_wait_secs(None, Some("x"), 0), 5);
}

fn one_item_feed(link: &str) -> Feed {
    parse_feed(&format!(
        "<rss><channel><item><title>T</title><link>{}</link></item></channel></rss>",
        link
    ))
    .unwrap()
}

#[test]
fn cache_gives_back_what_was_stored() {
    let mut cache = FeedCache::new();
    assert!(cache.get("u1").is_none());
    cache.insert("u1", one_item_feed("L1"));
    cache.insert("u2", one_item_feed("L2"));
    cache.insert("u1", one_item_feed("L3"));
    assert_eq!(cache.get("u1").unwrap().items[0].link, "L3");
    assert_eq!(cache.get("u2").unwrap().items[0].link, "L2");
    assert!(cache.get("u3").is_none());
}

#[test]
fn fetch_success_parses_and_caches() {
    let mut cache = FeedCache::new();
    let mut f = FeedFetch::new("http://reddit.com/r/a/.rss");
    assert_eq!(f.url, "https://reddit.com/r/a/.rss");
    let body = "<rss><channel><item><title>T</title><link>L</link></item></channel></rss>";
    match f.on_response(&mut cache, 200, "200 OK", None, None, body) {
        FetchStep::Finished(Ok(feed)) => assert_eq!(feed.items[0].link, "L"),
        _ => panic!("expected a feed"),
    }
    assert_eq!(cache.get("https://reddit.com/r/a/.rss").unwrap().items[0].title, "T");
}

#[test]
fn fetch_http_error_names_status_and_url() {
    let mut cache = FeedCache::new();
    let mut f = FeedFetch::new("https://e.example/feed");
    match f.on_response(&mut cache, 404, "404 Not Found", None, None, "") {
        FetchStep::Finished(Err(AppError::RssParse(m))) => {
            assert_eq!(m, "HTTP 404 Not Found for https://e.example/feed")
        }
        _ => panic!("expected an error"),
    }
}

#[test]
fn fetch_rate_limited_five_times_falls_back() {
    let mut cache = FeedCache::new();
    let mut f = FeedFetch::new("https://e.example/feed");
    for k in 0..5u64 {
        match f.on_response(&mut cache, 429, "429 Too Many Requests", None, None, "") {
            FetchStep::Wait(w) => assert_eq!(w, 5 * (k + 1)),
            _ => panic!("expected a wait"),
        }
        let next = f.after_wait(&cache);
        if k < 4 {
            assert!(matches!(next, FetchStep::Send));
        } else {
            match next {
                FetchStep::Finished(Err(AppError::RssParse(m))) => {
                    assert_eq!(m, "HTTP 429 Too Many Requests for https://e.example/feed")
                }
                _ => panic!("expected the rate-limit error"),
            }
        }
    }
    cache.insert("https://e.example/feed", one_item_feed("cached"));
    match f.after_wait(&cache) {
        FetchStep::Finished(Ok(feed)) => assert_eq!(feed.items[0].link, "cached"),
        _ => panic!("expected the cached feed"),
    }
}
