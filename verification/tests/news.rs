use cockpit_pacman_backend::news::{
    decode_entity, fetch_news, fetch_news_items, strip_html_and_truncate, FeedItem, NewsItem,
};

fn s(t: &str) -> String {
    t.to_string()
}

fn c(t: &str) -> Vec<char> {
    t.chars().collect()
}

#[test]
fn markup_becomes_plain_text() {
    assert_eq!(strip_html_and_truncate("<p>Hello <b>world</b></p>", 300), "Hello world");
    assert_eq!(strip_html_and_truncate("a<br/>b", 300), "a b");
    assert_eq!(strip_html_and_truncate("  a \n\t b  ", 300), "a b");
    assert_eq!(strip_html_and_truncate("<p>a</p><p>b</p>", 300), "a b");
    assert_eq!(strip_html_and_truncate("a > b", 300), "a b");
    assert_eq!(strip_html_and_truncate("a < b > c", 300), "a c");
    assert_eq!(strip_html_and_truncate("unclosed <tag", 300), "unclosed");
    assert_eq!(strip_html_and_truncate("", 300), "");
    assert_eq!(strip_html_and_truncate("<>", 300), "");
    assert_eq!(strip_html_and_truncate("\u{a0}x\u{3000}", 300), "x");
}

#[test]
fn entities_are_decoded() {
    assert_eq!(strip_html_and_truncate("a &amp; b &lt;c&gt; &quot;d&quot; &apos;e&apos;", 300), "a & b <c> \"d\" 'e'");
    assert_eq!(strip_html_and_truncate("a&nbsp;&nbsp;b", 300), "a b");
    assert_eq!(strip_html_and_truncate("&#65;&#x42;&#x63;", 300), "ABc");
    assert_eq!(strip_html_and_truncate("&#8364;&#x1F600;", 300), "\u{20ac}\u{1f600}");
    assert_eq!(strip_html_and_truncate("&#32;x&#10;y", 300), "x y");
    assert_eq!(strip_html_and_truncate("&unknown; &#xD800; &#1114112; &#; &#x; &#-1;", 300), "&unknown; &#xD800; &#1114112; &#; &#x; &#-1;");
    assert_eq!(strip_html_and_truncate("&#+65;", 300), "A");
    assert_eq!(strip_html_and_truncate("&#X41;", 300), "&#X41;");
    assert_eq!(strip_html_and_truncate("&#0065;", 300), "A");
    assert_eq!(strip_html_and_truncate("&#4294967296;", 300), "&#4294967296;");
    // An entity that does not end within ten characters stands for itself, and what was looked at is text.
    assert_eq!(strip_html_and_truncate("a &verylongentityname; b", 300), "a &verylongentityname; b");
    assert_eq!(strip_html_and_truncate("&abcdefghij&amp;", 300), "&abcdefghij&");
    assert_eq!(strip_html_and_truncate("&abcdefghi&amp;", 300), "&abcdefghi&amp;");
    assert_eq!(strip_html_and_truncate("R&D", 300), "R&D");
    assert_eq!(strip_html_and_truncate("&", 300), "&");
    assert_eq!(strip_html_and_truncate("&amp", 300), "&amp");
    assert_eq!(strip_html_and_truncate("&<b>x", 300), "&<b>x");
    assert_eq!(strip_html_and_truncate("&lt;b&gt;x", 300), "<b>x");
    assert_eq!(decode_entity(&c("amp;rest"), 0), (c("&"), 4));
    assert_eq!(decode_entity(&c("x&#65;y"), 2), (c("A"), 6));
    assert_eq!(decode_entity(&c("abcdefghijkl;"), 0), (c("&abcdefghij"), 10));
    assert_eq!(decode_entity(&c("abc"), 1), (c("&bc"), 3));
    assert_eq!(decode_entity(&c("abc"), 3), (c("&"), 3));
    assert_eq!(decode_entity(&c(";"), 0), (c("&;"), 1));
}

#[test]
fn long_text_is_cut_at_a_space() {
    let text = "word ".repeat(100);
    let cut = strip_html_and_truncate(&text, 300);
    assert_eq!(cut, format!("{}...", "word ".repeat(60).trim_end()));
    assert_eq!(cut.len(), 302);
    assert_eq!(strip_html_and_truncate("abcdefghij", 10), "abcdefghij");
    assert_eq!(strip_html_and_truncate("abcdefghijk", 10), "abcdefghij...");
    assert_eq!(strip_html_and_truncate("abcdef ghijk", 10), "abcdef...");
    // A space in the first half of the bytes allowed does not count.
    assert_eq!(strip_html_and_truncate("abcd efghijk", 10), "abcd efghi...");
    assert_eq!(strip_html_and_truncate("abcde fghijk", 10), "abcde fghi...");
    assert_eq!(strip_html_and_truncate("abcdef", 0), "...");
    // Bytes are counted, and a character is never cut in two.
    assert_eq!(strip_html_and_truncate("\u{e9}\u{e9}\u{e9}\u{e9}\u{e9}\u{e9}", 12), "\u{e9}\u{e9}\u{e9}\u{e9}\u{e9}\u{e9}");
    assert_eq!(strip_html_and_truncate("\u{e9}\u{e9}\u{e9}\u{e9}\u{e9}\u{e9}", 10), "\u{e9}\u{e9}\u{e9}\u{e9}\u{e9}...");
    assert_eq!(strip_html_and_truncate("\u{e9}\u{e9}\u{e9}\u{e9}\u{e9}\u{e9}", 9), "\u{e9}\u{e9}\u{e9}\u{e9}...");
}

const FEED: &str = r#"<?xml version="1.0" encoding="utf-8"?>
<rss version="2.0"><channel>
<title>Arch Linux: Recent news updates</title>
<link>https://archlinux.org/news/</link>
<description>The latest and greatest news</description>
<item>
  <title>Manual intervention required</title>
  <link>https://archlinux.org/news/one/</link>
  <description>&lt;p&gt;Please run &lt;code&gt;pacman -Syu&lt;/code&gt; &amp;amp; reboot.&lt;/p&gt;</description>
  <pubDate>Wed, 10 Jan 2024 12:30:00 +0100</pubDate>
</item>
<item>
  <title>Old news</title>
  <link>https://archlinux.org/news/two/</link>
  <description>old</description>
  <pubDate>Sun, 01 Jan 2023 00:00:00 +0000</pubDate>
</item>
<item>
  <title>No date</title>
  <description>x</description>
</item>
<item>
  <title>Bad date</title>
  <pubDate>yesterday</pubDate>
</item>
<item>
  <pubDate>Mon, 15 Jan 2024 00:00:00 GMT</pubDate>
</item>
</channel></rss>"#;

// 2024-01-20T00:00:00Z
const NOW: i64 = 1705708800;

#[test]
fn news_are_the_recent_items_of_the_feed() {
    let feed = FEED.as_bytes().to_vec();
    let r = fetch_news(Some(&feed), NOW, 0, 30);
    assert_eq!(
        r.items,
        vec![
            NewsItem {
                title: s("Manual intervention required"),
                link: s("https://archlinux.org/news/one/"),
                published: s("2024-01-10T11:30:00+00:00"),
                summary: s("Please run pacman -Syu & reboot."),
            },
            NewsItem {
                title: s(""),
                link: s(""),
                published: s("2024-01-15T00:00:00+00:00"),
                summary: s(""),
            },
        ]
    );
    // With more days the old item is shown too; more than a year is a year.
    assert_eq!(fetch_news(Some(&feed), NOW, 0, 365).items.len(), 2);
    assert_eq!(fetch_news(Some(&feed), NOW, 0, 400).items.len(), 2);
    assert_eq!(fetch_news(Some(&feed), NOW - 86400 * 30, 0, 400).items.len(), 3);
    assert_eq!(fetch_news(Some(&feed), NOW + 86400 * 20, 0, 400).items.len(), 2);
    assert_eq!(fetch_news(Some(&feed), NOW, 0, 0).items.len(), 0);
    assert_eq!(fetch_news(Some(&feed), NOW, 0, 5).items.len(), 1);
    // No feed, or bytes that are none, give no news.
    assert!(fetch_news(None, NOW, 0, 30).items.is_empty());
    assert!(fetch_news(Some(&b"not a feed".to_vec()), NOW, 0, 30).items.is_empty());
    assert!(fetch_news(Some(&vec![]), NOW, 0, 30).items.is_empty());
}

#[test]
fn the_cutoff_is_exact_to_the_nanosecond() {
    let item = |date: &str| FeedItem {
        title: Some(s("t")),
        link: None,
        description: None,
        pub_date: Some(s(date)),
    };
    // Ten days before the moment taken as now.
    let items = vec![item("Wed, 10 Jan 2024 00:00:00 +0000")];
    assert_eq!(fetch_news_items(&items, NOW, 0, 10).len(), 1);
    assert_eq!(fetch_news_items(&items, NOW, 1, 10).len(), 0);
    assert_eq!(fetch_news_items(&items, NOW + 1, 0, 10).len(), 0);
    assert_eq!(fetch_news_items(&items, NOW - 1, 999_999_999, 10).len(), 1);
    let shown = fetch_news_items(&items, NOW, 0, 10);
    assert_eq!(shown[0].published, "2024-01-10T00:00:00+00:00");
    assert_eq!(shown[0].title, "t");
    assert_eq!(fetch_news_items(&vec![item("10 Jan 2024 00:00:00 -0500")], NOW, 0, 30)[0].published, "2024-01-10T05:00:00+00:00");
}
