//! The news of the distribution, read from its feed.
//!
//! The feed is read by an outside parser, and the dates of its items by an
//! outside calendar. What is decided here is which items are recent
//! enough to be shown, and how the markup of a description becomes a
//! summary in plain text.

use chrono::DateTime;
use chrono::Utc;
use rss::Channel;
use vstd::prelude::*;
use vstd::string::*;

use crate::events::text_of;
use crate::text::{
    concat, count_trailing_whitespace, from_chars, is_whitespace, is_whitespace_char,
    slice_to_string, to_chars,
};

verus! {

/// The most days back that news are shown for.
pub const MAX_NEWS_DAYS: u32 = 365;

/// The most bytes that the summary of an item has, not counting the dots
/// that mark a cut.
pub const SUMMARY_BYTES: usize = 300;

/// The most characters of an entity that are looked at.
pub const ENTITY_CHARS: usize = 10;

/// `rss::Error`, the reason for which `rss::Channel::read_from` gave up.
/// Nothing is known of what it holds, and nothing is read from it: bytes
/// that are no feed give no news, whatever the reason.
#[verifier::external_type_specification]
#[verifier::external_body]
pub struct ExRssError(rss::Error);

/// An item of the feed, as far as it is looked at.
#[derive(Debug, Clone, PartialEq, Eq)]
pub struct FeedItem {
    pub title: Option<String>,
    pub link: Option<String>,
    pub description: Option<String>,
    pub pub_date: Option<String>,
}

/// The mathematical content of a [`FeedItem`]: its title, link,
/// description and date.
pub open spec fn item_view(item: FeedItem) -> (
    Option<Seq<char>>,
    Option<Seq<char>>,
    Option<Seq<char>>,
    Option<Seq<char>>,
) {
    (text_of(item.title), text_of(item.link), text_of(item.description), text_of(item.pub_date))
}

/// The contents of a list of items, element by element.
pub open spec fn item_views(items: Seq<FeedItem>) -> Seq<
    (Option<Seq<char>>, Option<Seq<char>>, Option<Seq<char>>, Option<Seq<char>>),
> {
    Seq::new(items.len(), |i: int| item_view(items[i]))
}

/// What `rss::Channel::read_from` reads from the bytes of a feed: the
/// title, link, description and date of each item, or nothing where the
/// bytes are no feed.
pub uninterp spec fn feed_items(feed: Seq<u8>) -> Option<
    Seq<(Option<Seq<char>>, Option<Seq<char>>, Option<Seq<char>>, Option<Seq<char>>)>,
>;

/// What `chrono::DateTime::parse_from_rfc2822` reads from a date: the
/// seconds since the epoch and the nanoseconds of the instant, or nothing
/// where the text is no date.
pub uninterp spec fn rfc2822_instant(text: Seq<char>) -> Option<(i64, u32)>;

/// What `chrono::DateTime::to_rfc3339` writes for the instant in universal
/// time that `chrono::DateTime::from_timestamp` makes of a number of
/// seconds since the epoch and a number of nanoseconds; nothing where the
/// two numbers are no instant of the calendar.
pub uninterp spec fn rfc3339_of_instant(secs: i64, nanos: u32) -> Option<Seq<char>>;

/// Calls `rss::Channel::read_from` on the bytes of a feed and copies the
/// four fields of each item that this library looks at. The result is
/// named, not described: it is what the outside parser makes of the
/// bytes.
#[verifier::external_body]
fn read_channel(feed: &[u8]) -> (r: Result<Vec<FeedItem>, rss::Error>)
    ensures
        match r {
            Ok(items) => feed_items(feed@) == Some(item_views(items@)),
            Err(_) => feed_items(feed@) is None,
        },
{
    Channel::read_from(feed).map(
        |channel| channel.items().iter().map(
            |item| FeedItem {
                title: item.title().map(|s| s.to_string()),
                link: item.link().map(|s| s.to_string()),
                description: item.description().map(|s| s.to_string()),
                pub_date: item.pub_date().map(|s| s.to_string()),
            },
        ).collect(),
    )
}

/// Calls `chrono::DateTime::parse_from_rfc2822` and hands out the instant
/// read as seconds and nanoseconds. The result is named, not described.
#[verifier::external_body]
fn parse_pub_date(text: &str) -> (r: Option<(i64, u32)>)
    ensures
        r == rfc2822_instant(text@),
{
    DateTime::parse_from_rfc2822(text).ok().map(|d| (d.timestamp(), d.timestamp_subsec_nanos()))
}

/// Calls `chrono::DateTime::from_timestamp` on the seconds and
/// nanoseconds of an instant and `chrono::DateTime::to_rfc3339` on what it
/// gives. The result is named, not described: it is the text that the
/// outside calendar writes for the instant, and there is none where the
/// calendar does not reach the instant.
#[verifier::external_body]
fn instant_rfc3339(secs: i64, nanos: u32) -> (r: Option<String>)
    ensures
        text_of(r) == rfc3339_of_instant(secs, nanos),
{
    DateTime::<Utc>::from_timestamp(secs, nanos).map(|d| d.to_rfc3339())
}

/// Calls `char::from_u32`, which gives the character with the code point
/// `n` where `n` is a Unicode scalar value: a number up to 0x10FFFF that
/// is no surrogate.
#[verifier::external_body]
fn char_from_code(n: u32) -> (r: Option<char>)
    ensures
        r is Some <==> is_scalar_value(n),
        r matches Some(c) ==> c as u32 == n,
{
    char::from_u32(n)
}

/// Whether `n` is the code point of a character.
pub open spec fn is_scalar_value(n: u32) -> bool {
    n < 0xD800 || (0xE000 <= n && n <= 0x10FFFF)
}

/// An item of the news as the caller is told of it.
#[derive(Debug, Clone, PartialEq, Eq)]
pub struct NewsItem {
    pub title: String,
    pub link: String,
    pub published: String,
    pub summary: String,
}

/// The mathematical content of a [`NewsItem`].
pub struct NewsItemView {
    pub title: Seq<char>,
    pub link: Seq<char>,
    pub published: Seq<char>,
    pub summary: Seq<char>,
}

impl View for NewsItem {
    type V = NewsItemView;

    open spec fn view(&self) -> NewsItemView {
        NewsItemView {
            title: self.title@,
            link: self.link@,
            published: self.published@,
            summary: self.summary@,
        }
    }
}

/// The contents of a list of news, element by element.
pub open spec fn news_views(v: Seq<NewsItem>) -> Seq<NewsItemView> {
    Seq::new(v.len(), |i: int| v[i]@)
}

/// The news as the caller is told of them.
#[derive(Debug, Clone, PartialEq, Eq)]
pub struct NewsResponse {
    pub items: Vec<NewsItem>,
}

/// The number of bytes that a character takes in UTF-8.
pub open spec fn width(c: char) -> nat {
    let n = c as u32;
    if n < 0x80 {
        1
    } else if n < 0x800 {
        2
    } else if n < 0x10000 {
        3
    } else {
        4
    }
}

/// The number of bytes that a text takes in UTF-8.
pub open spec fn bytes_in(s: Seq<char>) -> nat
    decreases s.len(),
{
    if s.len() == 0 {
        0
    } else {
        bytes_in(s.drop_last()) + width(s.last())
    }
}

/// The value of the digit `c` to the base `radix`, where it is one.
pub open spec fn radix_digit(c: char, radix: nat) -> Option<nat> {
    let v: nat = if '0' <= c && c <= '9' {
        (c as u32 - '0' as u32) as nat
    } else if 'a' <= c && c <= 'z' {
        (c as u32 - 'a' as u32 + 10) as nat
    } else if 'A' <= c && c <= 'Z' {
        (c as u32 - 'A' as u32 + 10) as nat
    } else {
        36
    };
    if v < radix {
        Some(v)
    } else {
        None
    }
}

/// The number that the digits `s` spell to the base `radix`, where all are
/// digits.
pub open spec fn radix_value(s: Seq<char>, radix: nat) -> Option<nat>
    decreases s.len(),
{
    if s.len() == 0 {
        Some(0)
    } else {
        match (radix_value(s.drop_last(), radix), radix_digit(s.last(), radix)) {
            (Some(high), Some(low)) => Some(high * radix + low),
            _ => None,
        }
    }
}

/// The code point that the text `s` spells to the base `radix`: an optional
/// plus sign and at least one digit, and a number that fits 32 bits.
pub open spec fn code_value(s: Seq<char>, radix: nat) -> Option<u32> {
    let digits = if s.len() > 0 && s[0] == '+' {
        s.drop_first()
    } else {
        s
    };
    match radix_value(digits, radix) {
        Some(n) => if digits.len() > 0 && n <= u32::MAX {
            Some(n as u32)
        } else {
            None
        },
        None => None,
    }
}

/// The character that a numeric entity names: `#` and a decimal number, or
/// `#x` and a hexadecimal one, of a code point that is a character.
pub open spec fn numeric_entity(name: Seq<char>) -> Option<char> {
    if name.len() == 0 || name[0] != '#' {
        None
    } else {
        let code = if name.len() > 1 && name[1] == 'x' {
            code_value(name.skip(2), 16)
        } else {
            code_value(name.skip(1), 10)
        };
        match code {
            Some(n) => if is_scalar_value(n) {
                Some(n as char)
            } else {
                None
            },
            None => None,
        }
    }
}

/// The text that an entity with the name `name` stands for. An entity that
/// is not known stands for itself.
pub open spec fn entity_text(name: Seq<char>) -> Seq<char> {
    if name == "amp"@ {
        seq!['&']
    } else if name == "lt"@ {
        seq!['<']
    } else if name == "gt"@ {
        seq!['>']
    } else if name == "quot"@ {
        seq!['"']
    } else if name == "apos"@ {
        seq!['\'']
    } else if name == "nbsp"@ {
        seq![' ']
    } else {
        match numeric_entity(name) {
            Some(c) => seq![c],
            None => seq!['&'] + name + seq![';'],
        }
    }
}

/// The place of the semicolon that ends the entity that begins at `from`:
/// the first semicolon among the next `ENTITY_CHARS` characters, or -1
/// where there is none.
pub open spec fn entity_end(s: Seq<char>, from: int, at: int) -> int
    decreases from + ENTITY_CHARS - at,
{
    if at < from || at >= from + ENTITY_CHARS || at >= s.len() {
        -1
    } else if s[at] == ';' {
        at
    } else {
        entity_end(s, from, at + 1)
    }
}

/// What the entity behind an ampersand stands for, and the place behind
/// it. Where no semicolon ends the entity within reach, the ampersand and
/// the characters looked at stand for themselves.
pub open spec fn decoded_entity(s: Seq<char>, from: int) -> (Seq<char>, int) {
    let end = entity_end(s, from, from);
    if end >= 0 {
        (entity_text(s.subrange(from, end)), end + 1)
    } else {
        let stop = if from + ENTITY_CHARS <= s.len() {
            from + ENTITY_CHARS
        } else {
            s.len() as int
        };
        (seq!['&'] + s.subrange(from, stop), stop)
    }
}

/// What is known while markup is read: the text so far, whether a tag is
/// open, and whether the text ends in a space that stands for white
/// space.
pub struct Plain {
    pub text: Seq<char>,
    pub in_tag: bool,
    pub spaced: bool,
}

/// The reading with a space in place of white space, unless the text is
/// empty or ends in such a space already.
pub open spec fn with_space(st: Plain) -> Plain {
    if !st.spaced && st.text.len() > 0 {
        Plain { text: st.text.push(' '), spaced: true, ..st }
    } else {
        st
    }
}

/// The reading after one more character of text.
pub open spec fn with_char(st: Plain, c: char) -> Plain {
    if is_whitespace_char(c) {
        with_space(st)
    } else {
        Plain { text: st.text.push(c), spaced: false, ..st }
    }
}

/// The reading after the characters `chars` of text.
pub open spec fn with_chars(st: Plain, chars: Seq<char>) -> Plain
    decreases chars.len(),
{
    if chars.len() == 0 {
        st
    } else {
        with_char(with_chars(st, chars.drop_last()), chars.last())
    }
}

/// The plain text of the markup `s` from the place `at` on, for the
/// reading `st` of what stands before. A tag is left out, and where it
/// closes a space separates what stands around it; an entity becomes what
/// it stands for; white space becomes one space.
pub open spec fn plain_from(s: Seq<char>, at: int, st: Plain) -> Seq<char>
    decreases s.len() - at,
{
    if at < 0 || at >= s.len() {
        st.text
    } else {
        let c = s[at];
        if c == '<' {
            plain_from(s, at + 1, Plain { in_tag: true, ..st })
        } else if c == '>' {
            plain_from(s, at + 1, with_space(Plain { in_tag: false, ..st }))
        } else if st.in_tag {
            plain_from(s, at + 1, st)
        } else if c == '&' {
            let (text, next) = decoded_entity(s, at + 1);
            if at < next <= s.len() {
                plain_from(s, next, with_chars(st, text))
            } else {
                st.text
            }
        } else {
            plain_from(s, at + 1, with_char(st, c))
        }
    }
}

/// The plain text of the markup `s`.
pub open spec fn plain_text(s: Seq<char>) -> Seq<char> {
    plain_from(s, 0, Plain { text: Seq::empty(), in_tag: false, spaced: false })
}

/// How many characters at the beginning of `s` fit into `limit` bytes.
pub open spec fn fitting(s: Seq<char>, limit: nat) -> nat
    decreases s.len(),
{
    if s.len() == 0 {
        0
    } else if bytes_in(s) <= limit {
        s.len()
    } else {
        fitting(s.drop_last(), limit)
    }
}

/// The place of the last space in `s`, or -1.
pub open spec fn last_space(s: Seq<char>) -> int {
    crate::cache::last_index_before(s, ' ', s.len() as int)
}

/// A text cut to `max_len` bytes: a text that fits stays as it is. A text
/// that does not fit is cut to the characters that fit, and then to the
/// last space among them where that lies behind the first half of the
/// bytes allowed; three dots mark the cut.
pub open spec fn cut_to(s: Seq<char>, max_len: usize) -> Seq<char> {
    if bytes_in(s) <= max_len {
        s
    } else {
        let head = s.take(fitting(s, max_len as nat) as int);
        let space = last_space(head);
        if space >= 0 && bytes_in(head.take(space)) > max_len / 2 {
            head.take(space) + "..."@
        } else {
            head + "..."@
        }
    }
}

/// The summary of a description: its plain text without white space at
/// the end, cut to `max_len` bytes.
pub open spec fn summary_of(html: Seq<char>, max_len: usize) -> Seq<char> {
    cut_to(crate::text::trimmed_end(plain_text(html)), max_len)
}

/// The value of the digit `c` to the base `radix`.
fn digit_to(c: char, radix: u32) -> (r: Option<u32>)
    requires
        2 <= radix <= 36,
    ensures
        match r {
            Some(v) => radix_digit(c, radix as nat) == Some(v as nat) && v < radix,
            None => radix_digit(c, radix as nat) is None,
        },
{
    let v: u32 = if '0' <= c && c <= '9' {
        c as u32 - '0' as u32
    } else if 'a' <= c && c <= 'z' {
        c as u32 - 'a' as u32 + 10
    } else if 'A' <= c && c <= 'Z' {
        c as u32 - 'A' as u32 + 10
    } else {
        36
    };
    if v < radix {
        Some(v)
    } else {
        None
    }
}

/// Where a beginning of `s` spells no number, `s` spells none.
proof fn lemma_radix_value_prefix(s: Seq<char>, radix: nat, n: int)
    requires
        0 <= n <= s.len(),
        radix_value(s.take(n), radix) is None,
    ensures
        radix_value(s, radix) is None,
    decreases s.len() - n,
{
    if n < s.len() {
        assert(s.take(n + 1).drop_last() =~= s.take(n));
        lemma_radix_value_prefix(s, radix, n + 1);
    } else {
        assert(s.take(n) =~= s);
    }
}

/// What `s` spells is no smaller than what a beginning of it spells.
proof fn lemma_radix_value_grows(s: Seq<char>, radix: nat, n: int)
    requires
        0 <= n <= s.len(),
        radix >= 1,
        radix_value(s.take(n), radix) is Some,
    ensures
        radix_value(s, radix) matches Some(whole) ==> whole >= radix_value(s.take(n), radix)->0,
    decreases s.len() - n,
{
    if n < s.len() {
        assert(s.take(n + 1).drop_last() =~= s.take(n));
        if radix_value(s.take(n + 1), radix) is Some {
            let high = radix_value(s.take(n), radix)->0;
            assert(high * radix >= high) by (nonlinear_arith)
                requires
                    radix >= 1,
                    high >= 0,
            ;
            lemma_radix_value_grows(s, radix, n + 1);
        } else {
            lemma_radix_value_prefix(s, radix, n + 1);
        }
    } else {
        assert(s.take(n) =~= s);
    }
}

/// Reads the code point that `chars[from..to]` spells to the base `radix`.
fn parse_code(chars: &Vec<char>, from: usize, to: usize, radix: u32) -> (r: Option<u32>)
    requires
        from <= to <= chars.len(),
        2 <= radix <= 36,
    ensures
        r == code_value(chars@.subrange(from as int, to as int), radix as nat),
{
    let ghost s = chars@.subrange(from as int, to as int);
    let start: usize = if from < to && chars[from] == '+' {
        from + 1
    } else {
        from
    };
    let ghost digits = chars@.subrange(start as int, to as int);
    proof {
        if start == from {
            assert(digits =~= s);
            if from < to {
                assert(s[0] == chars@[from as int]);
            }
        } else {
            assert(s[0] == chars@[from as int]);
            assert(digits =~= s.drop_first());
        }
    }
    if start == to {
        return None;
    }
    let mut value: u32 = 0;
    let mut i: usize = start;
    assert(digits.take(0) =~= Seq::<char>::empty());
    while i < to
        invariant
            start <= i <= to <= chars.len(),
            2 <= radix <= 36,
            digits == chars@.subrange(start as int, to as int),
            digits.len() > 0,
            s == chars@.subrange(from as int, to as int),
            digits == (if s.len() > 0 && s[0] == '+' {
                s.drop_first()
            } else {
                s
            }),
            radix_value(digits.take(i - start), radix as nat) == Some(value as nat),
        decreases to - i,
    {
        let c = chars[i];
        proof {
            let upto = digits.take(i + 1 - start);
            assert(upto.drop_last() =~= digits.take(i - start));
            assert(upto.last() == c);
        }
        let d = match digit_to(c, radix) {
            Some(d) => d,
            None => {
                proof {
                    lemma_radix_value_prefix(digits, radix as nat, i + 1 - start);
                }
                return None;
            },
        };
        if value > (u32::MAX - d) / radix {
            proof {
                let upto = digits.take(i + 1 - start);
                assert(radix_value(upto, radix as nat) == Some((value * radix + d) as nat));
                assert(value * radix + d > u32::MAX) by (nonlinear_arith)
                    requires
                        value > (u32::MAX - d) / (radix as int),
                        radix >= 2,
                        d < radix,
                ;
                lemma_radix_value_grows(digits, radix as nat, i + 1 - start);
            }
            return None;
        }
        assert(value * radix + d <= u32::MAX) by (nonlinear_arith)
            requires
                value <= (u32::MAX - d) / (radix as int),
                radix >= 2,
                d < radix,
        ;
        value = value * radix + d;
        i += 1;
    }
    assert(digits.take(digits.len() as int) =~= digits);
    Some(value)
}

/// Whether `chars[from..to]` is the text `word`.
fn is_word(chars: &Vec<char>, from: usize, to: usize, word: &str) -> (r: bool)
    requires
        from <= to <= chars.len(),
    ensures
        r == (chars@.subrange(from as int, to as int) == word@),
{
    let part = slice_to_string(chars, from, to);
    crate::config::same_text(part.as_str(), word)
}

/// The character that the numeric entity `chars[from..to]` names.
fn numeric(chars: &Vec<char>, from: usize, to: usize) -> (r: Option<char>)
    requires
        from <= to <= chars.len(),
    ensures
        r == numeric_entity(chars@.subrange(from as int, to as int)),
{
    let ghost name = chars@.subrange(from as int, to as int);
    if from == to || chars[from] != '#' {
        proof {
            if from < to {
                assert(name[0] == chars@[from as int]);
            }
        }
        return None;
    }
    assert(name[0] == chars@[from as int]);
    let code = if to - from > 1 && chars[from + 1] == 'x' {
        assert(name[1] == chars@[from + 1]);
        assert(name.skip(2) =~= chars@.subrange(from + 2, to as int));
        parse_code(chars, from + 2, to, 16)
    } else {
        proof {
            if to - from > 1 {
                assert(name[1] == chars@[from + 1]);
            }
            assert(name.skip(1) =~= chars@.subrange(from + 1, to as int));
        }
        parse_code(chars, from + 1, to, 10)
    };
    match code {
        Some(n) => match char_from_code(n) {
            Some(c) => {
                proof {
                    vstd::utf8::char_u32_cast(c, n);
                }
                Some(c)
            },
            None => None,
        },
        None => None,
    }
}

/// What the entity `chars[from..to]` stands for.
fn entity(chars: &Vec<char>, from: usize, to: usize) -> (text: Vec<char>)
    requires
        from <= to <= chars.len(),
    ensures
        text@ == entity_text(chars@.subrange(from as int, to as int)),
{
    let mut text: Vec<char> = Vec::new();
    if is_word(chars, from, to, "amp") {
        text.push('&');
    } else if is_word(chars, from, to, "lt") {
        text.push('<');
    } else if is_word(chars, from, to, "gt") {
        text.push('>');
    } else if is_word(chars, from, to, "quot") {
        text.push('"');
    } else if is_word(chars, from, to, "apos") {
        text.push('\'');
    } else if is_word(chars, from, to, "nbsp") {
        text.push(' ');
    } else {
        match numeric(chars, from, to) {
            Some(c) => {
                text.push(c);
            },
            None => {
                text.push('&');
                let mut i: usize = from;
                while i < to
                    invariant
                        from <= i <= to <= chars.len(),
                        text@ == seq!['&'] + chars@.subrange(from as int, i as int),
                    decreases to - i,
                {
                    text.push(chars[i]);
                    assert(seq!['&'] + chars@.subrange(from as int, i + 1) =~= (seq!['&']
                        + chars@.subrange(from as int, i as int)).push(chars@[i as int]));
                    i += 1;
                }
                text.push(';');
                assert(text@ =~= seq!['&'] + chars@.subrange(from as int, to as int) + seq![';']);
            },
        }
    }
    assert(text@ =~= entity_text(chars@.subrange(from as int, to as int)));
    text
}

/// Reads the entity that begins at `from`, behind an ampersand: gives what
/// it stands for and the place behind it.
pub fn decode_entity(chars: &Vec<char>, from: usize) -> (r: (Vec<char>, usize))
    requires
        from <= chars.len(),
    ensures
        (r.0@, r.1 as int) == decoded_entity(chars@, from as int),
        from <= r.1 <= chars.len(),
{
    let stop: usize = if chars.len() - from >= ENTITY_CHARS {
        from + ENTITY_CHARS
    } else {
        chars.len()
    };
    let mut at: usize = from;
    while at < stop
        invariant
            from <= at <= stop <= chars.len(),
            stop == (if from + ENTITY_CHARS <= chars.len() {
                from + ENTITY_CHARS
            } else {
                chars.len() as int
            }),
            entity_end(chars@, from as int, from as int) == entity_end(
                chars@,
                from as int,
                at as int,
            ),
        decreases stop - at,
    {
        if chars[at] == ';' {
            let text = entity(chars, from, at);
            return (text, at + 1);
        }
        at += 1;
    }
    let mut text: Vec<char> = Vec::new();
    text.push('&');
    let mut i: usize = from;
    while i < stop
        invariant
            from <= i <= stop <= chars.len(),
            text@ == seq!['&'] + chars@.subrange(from as int, i as int),
        decreases stop - i,
    {
        text.push(chars[i]);
        assert(seq!['&'] + chars@.subrange(from as int, i + 1) =~= (seq!['&'] + chars@.subrange(
            from as int,
            i as int,
        )).push(chars@[i as int]));
        i += 1;
    }
    (text, stop)
}

/// The reading that the executable loop keeps.
struct Reading {
    text: Vec<char>,
    in_tag: bool,
    spaced: bool,
}

impl View for Reading {
    type V = Plain;

    closed spec fn view(&self) -> Plain {
        Plain { text: self.text@, in_tag: self.in_tag, spaced: self.spaced }
    }
}

impl Reading {
    /// Puts a space in place of white space.
    fn space(&mut self)
        ensures
            final(self)@ == with_space(old(self)@),
    {
        if !self.spaced && self.text.len() > 0 {
            self.text.push(' ');
            self.spaced = true;
        }
    }

    /// Takes one character of text.
    fn take(&mut self, c: char)
        ensures
            final(self)@ == with_char(old(self)@, c),
    {
        if is_whitespace(c) {
            self.space();
        } else {
            self.text.push(c);
            self.spaced = false;
        }
    }

    /// Takes the characters `chars` of text.
    fn take_all(&mut self, chars: &Vec<char>)
        ensures
            final(self)@ == with_chars(old(self)@, chars@),
    {
        let mut i: usize = 0;
        assert(chars@.take(0) =~= Seq::<char>::empty());
        while i < chars.len()
            invariant
                i <= chars.len(),
                self@ == with_chars(old(self)@, chars@.take(i as int)),
            decreases chars.len() - i,
        {
            proof {
                let next = chars@.take(i + 1);
                assert(next.drop_last() =~= chars@.take(i as int));
                assert(next.last() == chars@[i as int]);
            }
            self.take(chars[i]);
            i += 1;
        }
        assert(chars@.take(chars@.len() as int) =~= chars@);
    }
}

/// The plain text of the markup `chars`.
fn strip_markup(chars: &Vec<char>) -> (text: Vec<char>)
    ensures
        text@ == plain_text(chars@),
{
    let mut st = Reading { text: Vec::new(), in_tag: false, spaced: false };
    assert(st@ == (Plain { text: Seq::empty(), in_tag: false, spaced: false })) by {
        assert(st.text@ =~= Seq::<char>::empty());
    }
    let mut at: usize = 0;
    while at < chars.len()
        invariant
            at <= chars.len(),
            plain_text(chars@) == plain_from(chars@, at as int, st@),
        decreases chars.len() - at,
    {
        let c = chars[at];
        if c == '<' {
            st.in_tag = true;
            at += 1;
        } else if c == '>' {
            st.in_tag = false;
            st.space();
            at += 1;
        } else if st.in_tag {
            at += 1;
        } else if c == '&' {
            let (text, next) = decode_entity(chars, at + 1);
            st.take_all(&text);
            at = next;
        } else {
            st.take(c);
            at += 1;
        }
    }
    st.text
}

/// The number of bytes that the character `c` takes in UTF-8.
fn char_width(c: char) -> (w: usize)
    ensures
        w == width(c),
        1 <= w <= 4,
{
    let n: u32 = c as u32;
    if n < 0x80 {
        1
    } else if n < 0x800 {
        2
    } else if n < 0x10000 {
        3
    } else {
        4
    }
}

/// The bytes of a text are the bytes of a beginning of it and the bytes
/// of the rest.
proof fn lemma_bytes_in_grows(s: Seq<char>, n: int)
    requires
        0 <= n <= s.len(),
    ensures
        bytes_in(s.take(n)) <= bytes_in(s),
    decreases s.len() - n,
{
    if n < s.len() {
        assert(s.take(n + 1).drop_last() =~= s.take(n));
        lemma_bytes_in_grows(s, n + 1);
    } else {
        assert(s.take(n) =~= s);
    }
}

/// Where the first `n` characters do not fit, what fits of the whole is
/// what fits of them.
proof fn lemma_fitting_of_prefix(s: Seq<char>, limit: nat, n: int)
    requires
        0 <= n <= s.len(),
        n < s.len() ==> bytes_in(s.take(n + 1)) > limit,
    ensures
        fitting(s, limit) == fitting(s.take(n), limit),
    decreases s.len(),
{
    if n < s.len() {
        lemma_bytes_in_grows(s, n + 1);
        assert(s.drop_last().take(n) =~= s.take(n));
        if n + 1 < s.len() {
            assert(s.drop_last().take(n + 1) =~= s.take(n + 1));
        } else {
            assert(s.take(n + 1) =~= s);
        }
        if n < s.drop_last().len() {
            lemma_fitting_of_prefix(s.drop_last(), limit, n);
        } else {
            assert(s.drop_last() =~= s.take(n));
        }
    } else {
        assert(s.take(n) =~= s);
    }
}

/// Cuts the text `chars` to `max_len` bytes.
fn cut(chars: &Vec<char>, max_len: usize) -> (out: String)
    ensures
        out@ == cut_to(chars@, max_len),
{
    // How many characters fit, and how many bytes they take.
    let mut n: usize = 0;
    let mut bytes: usize = 0;
    assert(chars@.take(0) =~= Seq::<char>::empty());
    while n < chars.len() && char_width(chars[n]) <= max_len - bytes
        invariant
            n <= chars.len(),
            bytes == bytes_in(chars@.take(n as int)),
            bytes <= max_len,
        decreases chars.len() - n,
    {
        proof {
            let next = chars@.take(n + 1);
            assert(next.drop_last() =~= chars@.take(n as int));
            assert(next.last() == chars@[n as int]);
        }
        bytes += char_width(chars[n]);
        n += 1;
    }
    if n == chars.len() {
        assert(chars@.take(n as int) =~= chars@);
        return from_chars(chars);
    }
    let ghost head = chars@.take(n as int);
    proof {
        let next = chars@.take(n + 1);
        assert(next.drop_last() =~= head);
        assert(next.last() == chars@[n as int]);
        lemma_bytes_in_grows(chars@, n + 1);
        lemma_fitting_of_prefix(chars@, max_len as nat, n as int);
        // The characters that fit all fit, so they are what fits of themselves.
        assert(fitting(head, max_len as nat) == head.len()) by {
            if head.len() > 0 {
            }
        }
        assert(head.len() == n);
    }
    // The last space among them, and the bytes before it.
    let space = crate::cache::last_index(chars, ' ', n);
    proof {
        crate::cache::lemma_last_index_of_prefix(chars@, ' ', n as int, n as int);
    }
    let mut end: usize = n;
    match space {
        Some(at) => {
            let mut before: usize = 0;
            let mut k: usize = 0;
            assert(head.take(at as int).take(0) =~= Seq::<char>::empty());
            while k < at
                invariant
                    k <= at < n <= chars.len(),
                    head == chars@.take(n as int),
                    before == bytes_in(head.take(at as int).take(k as int)),
                    before <= bytes,
                    bytes == bytes_in(head),
                decreases at - k,
            {
                proof {
                    let part = head.take(at as int);
                    let next = part.take(k + 1);
                    assert(next.drop_last() =~= part.take(k as int));
                    assert(next.last() == chars@[k as int]);
                    lemma_bytes_in_grows(part, k + 1);
                    lemma_bytes_in_grows(head, at as int);
                }
                before += char_width(chars[k]);
                k += 1;
            }
            assert(head.take(at as int).take(at as int) =~= head.take(at as int));
            if before > max_len / 2 {
                end = at;
            }
        },
        None => {},
    }
    let kept = slice_to_string(chars, 0, end);
    proof {
        assert(chars@.subrange(0, end as int) =~= head.take(end as int));
        assert(head.take(n as int) =~= head);
    }
    concat(kept.as_str(), "...")
}

/// The summary of a description in markup: its plain text, without white
/// space at the end, cut to `max_len` bytes.
pub fn strip_html_and_truncate(html: &str, max_len: usize) -> (out: String)
    ensures
        out@ == summary_of(html@, max_len),
{
    let chars = to_chars(html);
    let mut text = strip_markup(&chars);
    let trail = count_trailing_whitespace(&text, 0, text.len());
    let keep: usize = text.len() - trail;
    let ghost whole = text@;
    assert(whole.subrange(0, whole.len() as int) =~= whole);
    text.truncate(keep);
    assert(text@ =~= crate::text::trimmed_end(whole));
    cut(&text, max_len)
}

/// Whether an instant lies before the day `days` days before now.
pub open spec fn too_old(instant: (i64, u32), now_secs: i64, now_nanos: u32, days: u32) -> bool {
    let back = if days <= MAX_NEWS_DAYS {
        days
    } else {
        MAX_NEWS_DAYS
    };
    let cutoff = now_secs - back * 86400;
    instant.0 < cutoff || (instant.0 == cutoff && instant.1 < now_nanos)
}

/// The text that an item is published under, where the item is shown: the
/// instant that its date names, as the calendar writes it in universal
/// time. There is none where the date cannot be read, where the instant is
/// too old, or where the calendar has no text for it. The instant that is
/// held against the cutoff is the instant that is written.
pub open spec fn published_at(date: Seq<char>, now_secs: i64, now_nanos: u32, days: u32) -> Option<
    Seq<char>,
> {
    match rfc2822_instant(date) {
        Some(instant) => if too_old(instant, now_secs, now_nanos, days) {
            None
        } else {
            rfc3339_of_instant(instant.0, instant.1)
        },
        None => None,
    }
}

/// What is shown of an item: an item is shown where it has a date that
/// can be read and that is not too old.
pub open spec fn shown_item(
    item: (Option<Seq<char>>, Option<Seq<char>>, Option<Seq<char>>, Option<Seq<char>>),
    now_secs: i64,
    now_nanos: u32,
    days: u32,
) -> Option<NewsItemView> {
    match item.3 {
        Some(date) => match published_at(date, now_secs, now_nanos, days) {
            Some(published) => {
                Some(
                    NewsItemView {
                        title: match item.0 {
                            Some(t) => t,
                            None => Seq::empty(),
                        },
                        link: match item.1 {
                            Some(l) => l,
                            None => Seq::empty(),
                        },
                        published,
                        summary: match item.2 {
                            Some(d) => summary_of(d, SUMMARY_BYTES),
                            None => Seq::empty(),
                        },
                    },
                )
            },
            None => None,
        },
        None => None,
    }
}

/// What is shown of the items, in the order given.
pub open spec fn shown_items(
    items: Seq<(Option<Seq<char>>, Option<Seq<char>>, Option<Seq<char>>, Option<Seq<char>>)>,
    now_secs: i64,
    now_nanos: u32,
    days: u32,
) -> Seq<NewsItemView>
    decreases items.len(),
{
    if items.len() == 0 {
        Seq::empty()
    } else {
        let before = shown_items(items.drop_last(), now_secs, now_nanos, days);
        match shown_item(items.last(), now_secs, now_nanos, days) {
            Some(item) => before.push(item),
            None => before,
        }
    }
}

/// The news that a feed holds: what is shown of its items, or nothing
/// where there is no feed or the bytes are none.
pub open spec fn news_of(feed: Option<Seq<u8>>, now_secs: i64, now_nanos: u32, days: u32) -> Seq<
    NewsItemView,
> {
    match feed {
        Some(bytes) => match feed_items(bytes) {
            Some(items) => shown_items(items, now_secs, now_nanos, days),
            None => Seq::empty(),
        },
        None => Seq::empty(),
    }
}

/// Whether an instant lies before the day `days` days before now.
fn is_too_old(instant: (i64, u32), now_secs: i64, now_nanos: u32, days: u32) -> (r: bool)
    ensures
        r == too_old(instant, now_secs, now_nanos, days),
{
    let back: u32 = if days <= MAX_NEWS_DAYS {
        days
    } else {
        MAX_NEWS_DAYS
    };
    let cutoff: i128 = now_secs as i128 - (back as i128) * 86400;
    let at: i128 = instant.0 as i128;
    at < cutoff || (at == cutoff && instant.1 < now_nanos)
}

/// The text that an item with the date `date` is published under, where
/// it is shown.
fn publication(date: &str, now_secs: i64, now_nanos: u32, days: u32) -> (r: Option<String>)
    ensures
        text_of(r) == published_at(date@, now_secs, now_nanos, days),
{
    match parse_pub_date(date) {
        Some(instant) => if is_too_old(instant, now_secs, now_nanos, days) {
            None
        } else {
            instant_rfc3339(instant.0, instant.1)
        },
        None => None,
    }
}

/// A copy of an optional text, or the empty text.
fn text_or_empty(s: &Option<String>) -> (out: String)
    ensures
        out@ == (match text_of(*s) {
            Some(t) => t,
            None => Seq::empty(),
        }),
{
    match s {
        Some(t) => t.clone(),
        None => String::new(),
    }
}

/// What is shown of the items of a feed that was read.
pub fn fetch_news_items(items: &Vec<FeedItem>, now_secs: i64, now_nanos: u32, days: u32) -> (news:
    Vec<NewsItem>)
    ensures
        news_views(news@) == shown_items(item_views(items@), now_secs, now_nanos, days),
{
    let ghost all = item_views(items@);
    let mut news: Vec<NewsItem> = Vec::new();
    let mut i: usize = 0;
    assert(all.take(0) =~= Seq::empty());
    assert(news_views(news@) =~= Seq::<NewsItemView>::empty());
    while i < items.len()
        invariant
            i <= items.len(),
            all == item_views(items@),
            news_views(news@) == shown_items(all.take(i as int), now_secs, now_nanos, days),
        decreases items.len() - i,
    {
        let item = &items[i];
        proof {
            let next = all.take(i + 1);
            assert(next.drop_last() =~= all.take(i as int));
            assert(next.last() == item_view(items@[i as int]));
        }
        match &item.pub_date {
            Some(date) => {
                match publication(date.as_str(), now_secs, now_nanos, days) {
                    Some(published) => {
                        let summary = match &item.description {
                            Some(d) => strip_html_and_truncate(d.as_str(), SUMMARY_BYTES),
                            None => String::new(),
                        };
                        let ghost before = news_views(news@);
                        let entry = NewsItem {
                            title: text_or_empty(&item.title),
                            link: text_or_empty(&item.link),
                            published,
                            summary,
                        };
                        news.push(entry);
                        assert(news_views(news@) =~= before.push(entry@));
                    },
                    None => {},
                }
            },
            None => {},
        }
        i += 1;
    }
    assert(all.take(all.len() as int) =~= all);
    news
}

/// The news of the last `days` days, at most a year, from the bytes of the
/// feed, where the feed could be had. A feed that could not be had, or
/// whose bytes are no feed, gives no news, and no error.
pub fn fetch_news(feed: Option<&Vec<u8>>, now_secs: i64, now_nanos: u32, days: u32) -> (r:
    NewsResponse)
    ensures
        news_views(r.items@) == news_of(
            match feed {
                Some(bytes) => Some(bytes@),
                None => None,
            },
            now_secs,
            now_nanos,
            days,
        ),
{
    let items = match feed {
        Some(bytes) => match read_channel(bytes.as_slice()) {
            Ok(items) => fetch_news_items(&items, now_secs, now_nanos, days),
            Err(_) => Vec::new(),
        },
        None => Vec::new(),
    };
    assert(items@.len() == 0 ==> news_views(items@) =~= Seq::<NewsItemView>::empty());
    NewsResponse { items }
}

} // verus!
