//! The list of mirrors: how it is read, how it is written, and what the
//! test of a mirror means.

use vstd::prelude::*;
use vstd::string::*;

use crate::cancel::{cancellation_record, check_state, check_verdict, emit_cancellation_complete};
use crate::events::{
    complete, complete_view, text_of, MirrorTestResult, MirrorTestResultView, StreamEvent,
    StreamEventView,
};
use crate::text::{
    concat, concat3, count_leading_whitespace, count_trailing_whitespace, decimal, decimal_string,
    find_char_from, first_index_from, has_prefix, lines, parse_unsigned, replace_all, replaced_all,
    slice_to_string, to_chars, trim_range, trimmed, unsigned_value, views,
};
use crate::validation::{mirror_url_verdict, validate_mirror_url};

verus! {

/// Where the list of mirrors is kept.
pub const MIRRORLIST_PATH: &'static str = "/etc/pacman.d/mirrorlist";

/// The fewest bytes that a package database worth the name has.
pub const MIN_CONTENT_LENGTH: u64 = 100000;

/// How many backups of the list are kept.
pub const MAX_BACKUPS: usize = 5;

/// One mirror of the list.
#[derive(Debug, Clone, PartialEq, Eq)]
pub struct MirrorEntry {
    pub url: String,
    pub enabled: bool,
    pub comment: Option<String>,
}

/// The mathematical content of a [`MirrorEntry`].
pub struct MirrorEntryView {
    pub url: Seq<char>,
    pub enabled: bool,
    pub comment: Option<Seq<char>>,
}

impl View for MirrorEntry {
    type V = MirrorEntryView;

    open spec fn view(&self) -> MirrorEntryView {
        MirrorEntryView { url: self.url@, enabled: self.enabled, comment: text_of(self.comment) }
    }
}

/// The contents of a list of mirrors, element by element.
pub open spec fn mirror_views(v: Seq<MirrorEntry>) -> Seq<MirrorEntryView> {
    Seq::new(v.len(), |i: int| v[i]@)
}

/// The URL that a `Server` line names: what stands behind the first equals
/// sign, without the white space around it. A line without an equals sign
/// names none.
pub open spec fn server_url(line: Seq<char>) -> Option<Seq<char>> {
    let at = first_index_from(line, '=', 0);
    if at < 0 {
        None
    } else {
        Some(trimmed(line.skip(at + 1)))
    }
}

/// Reads the URL from a `Server` line.
pub fn parse_server_line(line: &str) -> (r: Option<String>)
    ensures
        text_of(r) == server_url(line@),
{
    let chars = to_chars(line);
    match find_char_from(&chars, '=', 0) {
        Some(at) => {
            let url = trim_range(&chars, at + 1, chars.len());
            assert(chars@.skip(at + 1) =~= chars@.subrange(at + 1, chars@.len() as int));
            Some(url)
        },
        None => None,
    }
}

/// How many characters at the beginning of `s` are hash signs.
pub open spec fn leading_hashes(s: Seq<char>) -> nat
    decreases s.len(),
{
    if s.len() > 0 && s[0] == '#' {
        1 + leading_hashes(s.drop_first())
    } else {
        0
    }
}

/// What a comment line says: the line without the hash signs that begin
/// it and without the white space around the rest.
pub open spec fn comment_text(line: Seq<char>) -> Seq<char> {
    trimmed(line.skip(leading_hashes(line) as int))
}

/// What is known while the list is read: the mirrors so far, and the
/// comment that waits for the mirror it belongs to.
pub struct ListingView {
    pub mirrors: Seq<MirrorEntryView>,
    pub pending: Option<Seq<char>>,
}

/// The reading after one more line. An empty line drops the comment that
/// waits. A line that begins with two hash signs is a comment. A line that
/// begins with one hash sign is a mirror that is switched off where it
/// goes on with `Server`, else a comment. A line that begins with
/// `Server` is a mirror. A mirror takes the comment that waits; a `Server`
/// line without a URL is passed over and leaves the comment waiting.
pub open spec fn listed_line(st: ListingView, line: Seq<char>) -> ListingView {
    let text = trimmed(line);
    if text.len() == 0 {
        ListingView { pending: None, ..st }
    } else if has_prefix(text, "##"@) {
        ListingView { pending: Some(comment_text(text)), ..st }
    } else if text[0] == '#' {
        let content = comment_text(text);
        if has_prefix(content, "Server"@) {
            match server_url(content) {
                Some(url) => ListingView {
                    mirrors: st.mirrors.push(
                        MirrorEntryView { url, enabled: false, comment: st.pending },
                    ),
                    pending: None,
                },
                None => st,
            }
        } else {
            ListingView { pending: Some(content), ..st }
        }
    } else if has_prefix(text, "Server"@) {
        match server_url(text) {
            Some(url) => ListingView {
                mirrors: st.mirrors.push(MirrorEntryView { url, enabled: true, comment: st.pending }),
                pending: None,
            },
            None => st,
        }
    } else {
        st
    }
}

/// The reading after the lines `lines`.
pub open spec fn listing(lines: Seq<Seq<char>>) -> ListingView
    decreases lines.len(),
{
    if lines.len() == 0 {
        ListingView { mirrors: Seq::empty(), pending: None }
    } else {
        listed_line(listing(lines.drop_last()), lines.last())
    }
}

/// How many of the mirrors are switched on.
pub open spec fn enabled_among(mirrors: Seq<MirrorEntryView>) -> nat
    decreases mirrors.len(),
{
    if mirrors.len() == 0 {
        0
    } else {
        enabled_among(mirrors.drop_last()) + (if mirrors.last().enabled {
            1nat
        } else {
            0nat
        })
    }
}

/// The list of mirrors as the caller is told of it.
#[derive(Debug, Clone, PartialEq, Eq)]
pub struct MirrorListResponse {
    pub mirrors: Vec<MirrorEntry>,
    pub total: usize,
    pub enabled_count: usize,
    pub path: String,
    pub last_modified: Option<i64>,
}

/// The text of a line without the white space around it and, where
/// `strip_hashes` is set, without the hash signs that begin it and the
/// white space behind them.
fn line_text(chars: &Vec<char>, from: usize, to: usize, strip_hashes: bool) -> (r: (usize, usize))
    requires
        from <= to <= chars.len(),
    ensures
        from <= r.0 <= r.1 <= to,
        !strip_hashes ==> chars@.subrange(r.0 as int, r.1 as int) == trimmed(
            chars@.subrange(from as int, to as int),
        ),
        strip_hashes ==> chars@.subrange(r.0 as int, r.1 as int) == comment_text(
            chars@.subrange(from as int, to as int),
        ),
{
    let ghost part = chars@.subrange(from as int, to as int);
    let mut begin: usize = from;
    if strip_hashes {
        while begin < to && chars[begin] == '#'
            invariant
                from <= begin <= to <= chars.len(),
                part == chars@.subrange(from as int, to as int),
                leading_hashes(part) == (begin - from) + leading_hashes(
                    chars@.subrange(begin as int, to as int),
                ),
            decreases to - begin,
        {
            proof {
                let cur = chars@.subrange(begin as int, to as int);
                assert(cur[0] == chars@[begin as int]);
                assert(cur.drop_first() =~= chars@.subrange(begin + 1, to as int));
            }
            begin += 1;
        }
        proof {
            let cur = chars@.subrange(begin as int, to as int);
            if begin < to {
                assert(cur[0] == chars@[begin as int]);
            }
            assert(part.skip(begin - from) =~= cur);
        }
    }
    let lead = count_leading_whitespace(chars, begin, to);
    let start: usize = begin + lead;
    let trail = count_trailing_whitespace(chars, start, to);
    proof {
        let cur = chars@.subrange(begin as int, to as int);
        assert(crate::text::trimmed_start(cur) =~= chars@.subrange(start as int, to as int));
        assert(crate::text::trimmed_end(chars@.subrange(start as int, to as int))
            =~= chars@.subrange(start as int, to - trail));
    }
    (start, to - trail)
}

/// Whether `needle` begins `chars[from..to]`.
fn begins(chars: &Vec<char>, from: usize, to: usize, needle: &str) -> (r: bool)
    requires
        from <= to <= chars.len(),
    ensures
        r == has_prefix(chars@.subrange(from as int, to as int), needle@),
{
    let n = to_chars(needle);
    let ghost part = chars@.subrange(from as int, to as int);
    if n.len() > to - from {
        return false;
    }
    let r = crate::text::matches_at(chars, &n, from);
    proof {
        assert(part.subrange(0, n@.len() as int) =~= chars@.subrange(
            from as int,
            from + n@.len(),
        ));
    }
    r
}

/// The URL of the `Server` line `chars[from..to]`.
fn url_in(chars: &Vec<char>, from: usize, to: usize) -> (r: Option<String>)
    requires
        from <= to <= chars.len(),
    ensures
        text_of(r) == server_url(chars@.subrange(from as int, to as int)),
{
    let line = slice_to_string(chars, from, to);
    parse_server_line(line.as_str())
}

/// Reads the list of mirrors from the lines of its file.
pub fn list_mirrors(file_lines: &Vec<String>, last_modified: Option<i64>) -> (r: MirrorListResponse)
    ensures
        mirror_views(r.mirrors@) == listing(views(file_lines@)).mirrors,
        r.total == r.mirrors@.len(),
        r.enabled_count == enabled_among(mirror_views(r.mirrors@)),
        r.path@ == MIRRORLIST_PATH@,
        r.last_modified == last_modified,
{
    let mut mirrors: Vec<MirrorEntry> = Vec::new();
    let mut pending: Option<String> = None;
    let mut enabled_count: usize = 0;
    let ghost all = views(file_lines@);
    let mut i: usize = 0;
    assert(all.take(0) =~= Seq::<Seq<char>>::empty());
    assert(mirror_views(mirrors@) =~= Seq::<MirrorEntryView>::empty());
    while i < file_lines.len()
        invariant
            i <= file_lines.len(),
            all == views(file_lines@),
            mirror_views(mirrors@) == listing(all.take(i as int)).mirrors,
            text_of(pending) == listing(all.take(i as int)).pending,
            enabled_count == enabled_among(mirror_views(mirrors@)),
            enabled_count <= mirrors@.len(),
        decreases file_lines.len() - i,
    {
        proof {
            let upto = all.take(i + 1);
            assert(upto.drop_last() =~= all.take(i as int));
            assert(upto.last() == file_lines@[i as int]@);
        }
        let chars = to_chars(file_lines[i].as_str());
        assert(chars@.subrange(0, chars@.len() as int) =~= chars@);
        let (from, to) = line_text(&chars, 0, chars.len(), false);
        let ghost text = chars@.subrange(from as int, to as int);
        if from == to {
            pending = None;
        } else if begins(&chars, from, to, "##") {
            let (a, b) = line_text(&chars, from, to, true);
            pending = Some(slice_to_string(&chars, a, b));
        } else if chars[from] == '#' {
            assert(text[0] == chars@[from as int]);
            let (a, b) = line_text(&chars, from, to, true);
            if begins(&chars, a, b, "Server") {
                match url_in(&chars, a, b) {
                    Some(url) => {
                        let ghost before = mirror_views(mirrors@);
                        let entry = MirrorEntry { url, enabled: false, comment: pending };
                        mirrors.push(entry);
                        pending = None;
                        proof {
                            assert(mirror_views(mirrors@) =~= before.push(entry@));
                            assert(mirror_views(mirrors@).drop_last() =~= before);
                        }
                    },
                    None => {},
                }
            } else {
                pending = Some(slice_to_string(&chars, a, b));
            }
        } else if begins(&chars, from, to, "Server") {
            assert(text[0] == chars@[from as int]);
            match url_in(&chars, from, to) {
                Some(url) => {
                    let ghost before = mirror_views(mirrors@);
                    let entry = MirrorEntry { url, enabled: true, comment: pending };
                    mirrors.push(entry);
                    pending = None;
                    proof {
                        assert(mirror_views(mirrors@) =~= before.push(entry@));
                        assert(mirror_views(mirrors@).drop_last() =~= before);
                    }
                    let count = mirrors.len();
                    assert(enabled_count < count);
                    enabled_count += 1;
                },
                None => {},
            }
        } else {
            assert(text[0] == chars@[from as int]);
        }
        i += 1;
    }
    assert(all.take(all.len() as int) =~= all);
    MirrorListResponse {
        total: mirrors.len(),
        enabled_count,
        mirrors,
        path: String::from_str(MIRRORLIST_PATH),
        last_modified,
    }
}

/// `s` without the slashes at its end.
pub open spec fn without_trailing_slashes(s: Seq<char>) -> Seq<char>
    decreases s.len(),
{
    if s.len() > 0 && s.last() == '/' {
        without_trailing_slashes(s.drop_last())
    } else {
        s
    }
}

/// The URL that is asked for to test a mirror: the database of the core
/// repository for the common architecture.
pub open spec fn test_url_of(mirror_url: Seq<char>) -> Seq<char> {
    without_trailing_slashes(
        replaced_all(replaced_all(mirror_url, "$repo"@, "core"@), "$arch"@, "x86_64"@),
    ) + "/core.db"@
}

/// The URL to ask for to test the mirror `mirror_url`.
pub fn test_url(mirror_url: &str) -> (url: String)
    ensures
        url@ == test_url_of(mirror_url@),
{
    let chars = to_chars(mirror_url);
    let repo = to_chars("$repo");
    let core = to_chars("core");
    let arch = to_chars("$arch");
    let x86 = to_chars("x86_64");
    let with_repo = replace_all(&chars, &repo, &core);
    let with_both = replace_all(&with_repo, &arch, &x86);
    let mut end: usize = with_both.len();
    assert(with_both@.take(end as int) =~= with_both@);
    while end > 0 && with_both[end - 1] == '/'
        invariant
            end <= with_both.len(),
            without_trailing_slashes(with_both@) == without_trailing_slashes(
                with_both@.take(end as int),
            ),
        decreases end,
    {
        assert(with_both@.take(end as int).drop_last() =~= with_both@.take(end - 1));
        end -= 1;
    }
    let base = slice_to_string(&with_both, 0, end);
    assert(with_both@.subrange(0, end as int) =~= with_both@.take(end as int));
    concat(base.as_str(), "/core.db")
}

/// What the request to a mirror brought back.
#[derive(Debug, Clone, PartialEq, Eq)]
pub enum MirrorReply {
    /// An answer came after `latency_ms` milliseconds, with this
    /// `Content-Length` header where it has one that is text.
    Answered { latency_ms: u64, content_length: Option<String> },
    /// No answer came; the text says why.
    Failed(String),
}

/// What the test of a mirror found: the mirror passes where it answers
/// with a content length of at least the least size of a database.
pub open spec fn test_verdict(mirror_url: Seq<char>, reply: MirrorReply) -> MirrorTestResultView {
    match reply {
        MirrorReply::Answered { latency_ms, content_length } => {
            let length = match content_length {
                Some(text) => unsigned_value(text@),
                None => None,
            };
            match length {
                Some(len) => if len >= MIN_CONTENT_LENGTH {
                    MirrorTestResultView {
                        url: mirror_url,
                        success: true,
                        speed_bps: None,
                        latency_ms: Some(latency_ms),
                        error: None,
                    }
                } else {
                    MirrorTestResultView {
                        url: mirror_url,
                        success: false,
                        speed_bps: None,
                        latency_ms: Some(latency_ms),
                        error: Some(
                            "Content-Length "@ + decimal(len as nat) + " too small (expected >= "@
                                + decimal(MIN_CONTENT_LENGTH as nat) + ")"@,
                        ),
                    }
                },
                None => MirrorTestResultView {
                    url: mirror_url,
                    success: false,
                    speed_bps: None,
                    latency_ms: Some(latency_ms),
                    error: Some("Missing Content-Length header"@),
                },
            }
        },
        MirrorReply::Failed(error) => MirrorTestResultView {
            url: mirror_url,
            success: false,
            speed_bps: None,
            latency_ms: None,
            error: Some(error@),
        },
    }
}

/// Judges the test of the mirror `mirror_url` by what the request brought
/// back.
pub fn test_single_mirror(mirror_url: &str, reply: &MirrorReply) -> (r: MirrorTestResult)
    ensures
        r@ == test_verdict(mirror_url@, *reply),
{
    let url = String::from_str(mirror_url);
    match reply {
        MirrorReply::Answered { latency_ms, content_length } => {
            let length = match content_length {
                Some(text) => parse_unsigned(text.as_str()),
                None => None,
            };
            match length {
                Some(len) => if len >= MIN_CONTENT_LENGTH {
                    MirrorTestResult {
                        url,
                        success: true,
                        speed_bps: None,
                        latency_ms: Some(*latency_ms),
                        error: None,
                    }
                } else {
                    let got = decimal_string(len);
                    let least = decimal_string(MIN_CONTENT_LENGTH);
                    let mut text = concat3(
                        "Content-Length ",
                        got.as_str(),
                        " too small (expected >= ",
                    );
                    text.append(least.as_str());
                    text.append(")");
                    MirrorTestResult {
                        url,
                        success: false,
                        speed_bps: None,
                        latency_ms: Some(*latency_ms),
                        error: Some(text),
                    }
                },
                None => MirrorTestResult {
                    url,
                    success: false,
                    speed_bps: None,
                    latency_ms: Some(*latency_ms),
                    error: Some(String::from_str("Missing Content-Length header")),
                },
            }
        },
        MirrorReply::Failed(error) => MirrorTestResult {
            url,
            success: false,
            speed_bps: None,
            latency_ms: None,
            error: Some(error.clone()),
        },
    }
}

/// What the run of tests does next.
#[derive(Debug, PartialEq, Eq)]
pub enum TestAction {
    /// Test the mirror at this index.
    Test(usize),
    /// Stream the record and end.
    Finish(StreamEvent),
}

/// The mathematical content of a [`TestAction`].
pub enum TestActionView {
    Test(usize),
    Finish(StreamEventView),
}

impl View for TestAction {
    type V = TestActionView;

    open spec fn view(&self) -> TestActionView {
        match *self {
            TestAction::Test(i) => TestActionView::Test(i),
            TestAction::Finish(e) => TestActionView::Finish(e@),
        }
    }
}

/// What the run of tests does once `done` of `total` mirrors are tested:
/// before each mirror the flags are looked at; with all mirrors tested the
/// run ends in success.
pub open spec fn next_test(
    done: usize,
    total: usize,
    cancelled: bool,
    timed_out: bool,
    timeout_secs: u64,
) -> TestActionView {
    if done >= total {
        TestActionView::Finish(
            complete_view(true, "Tested "@ + decimal(total as nat) + " mirrors"@),
        )
    } else {
        match cancellation_record(check_verdict(cancelled, timed_out, timeout_secs)) {
            Some(record) => TestActionView::Finish(record),
            None => TestActionView::Test(done),
        }
    }
}

/// Decides what the run of tests does next.
pub fn test_mirrors(done: usize, total: usize, cancelled: bool, timed_out: bool, timeout_secs: u64) -> (r:
    TestAction)
    ensures
        r@ == next_test(done, total, cancelled, timed_out, timeout_secs),
{
    if done >= total {
        let n = decimal_string(total as u64);
        TestAction::Finish(complete(true, concat3("Tested ", n.as_str(), " mirrors")))
    } else {
        let verdict = check_state(cancelled, timed_out, timeout_secs);
        match emit_cancellation_complete(&verdict) {
            Some(record) => TestAction::Finish(record),
            None => TestAction::Test(done),
        }
    }
}

/// The record for the test of the mirror at index `index` of `total`.
pub fn mirror_test_record(index: usize, total: usize, result: MirrorTestResult) -> (e: StreamEvent)
    requires
        index < total,
    ensures
        e@ == (StreamEventView::MirrorTest {
            url: result.url@,
            current: (index + 1) as usize,
            total,
            result: result@,
        }),
{
    StreamEvent::MirrorTest { url: result.url.clone(), current: index + 1, total, result }
}

/// The lines that begin every list written.
pub open spec fn list_header() -> Seq<char> {
    "##\n## Arch Linux repository mirrorlist\n## Generated by cockpit-pacman\n##\n\n"@
}

/// The lines for one mirror: its comment, where it has one, and its
/// `Server` line, behind a hash sign where the mirror is switched off.
pub open spec fn mirror_lines(m: MirrorEntryView) -> Seq<char> {
    (match m.comment {
        Some(c) => "## "@ + c + "\n"@,
        None => Seq::empty(),
    }) + (if m.enabled {
        "Server = "@
    } else {
        "#Server = "@
    }) + m.url + "\n"@
}

/// The lines for the mirrors `mirrors`, in order.
pub open spec fn all_mirror_lines(mirrors: Seq<MirrorEntryView>) -> Seq<char>
    decreases mirrors.len(),
{
    if mirrors.len() == 0 {
        Seq::empty()
    } else {
        all_mirror_lines(mirrors.drop_last()) + mirror_lines(mirrors.last())
    }
}

/// The first rejection among the URLs of `mirrors`, where one is rejected.
pub open spec fn first_rejection(mirrors: Seq<MirrorEntryView>) -> Option<Seq<char>>
    decreases mirrors.len(),
{
    if mirrors.len() == 0 {
        None
    } else {
        match first_rejection(mirrors.drop_last()) {
            Some(text) => Some(text),
            None => match mirror_url_verdict(mirrors.last().url) {
                Err(text) => Some(text),
                Ok(_) => None,
            },
        }
    }
}

/// The content of a list that is written, or the rejection.
pub open spec fn written_view(r: Result<String, String>) -> Result<Seq<char>, Seq<char>> {
    match r {
        Ok(s) => Ok(s@),
        Err(e) => Err(e@),
    }
}

/// The content of the file for the mirrors `mirrors`. Every URL is checked
/// before a line is written; the first URL that is rejected rejects the
/// list.
pub fn save_mirrorlist(mirrors: &Vec<MirrorEntry>) -> (r: Result<String, String>)
    ensures
        written_view(r) == (match first_rejection(mirror_views(mirrors@)) {
            Some(text) => Err::<Seq<char>, Seq<char>>(text),
            None => Ok(list_header() + all_mirror_lines(mirror_views(mirrors@))),
        }),
{
    let ghost all = mirror_views(mirrors@);
    let mut i: usize = 0;
    assert(all.take(0) =~= Seq::<MirrorEntryView>::empty());
    while i < mirrors.len()
        invariant
            i <= mirrors.len(),
            all == mirror_views(mirrors@),
            first_rejection(all.take(i as int)) is None,
        decreases mirrors.len() - i,
    {
        proof {
            let upto = all.take(i + 1);
            assert(upto.drop_last() =~= all.take(i as int));
            assert(upto.last() == mirrors@[i as int]@);
        }
        match validate_mirror_url(mirrors[i].url.as_str()) {
            Err(text) => {
                proof {
                    lemma_rejection_stays(all, i + 1);
                }
                return Err(text);
            },
            Ok(()) => {},
        }
        i += 1;
    }
    assert(all.take(all.len() as int) =~= all);
    let mut content = String::from_str(
        "##\n## Arch Linux repository mirrorlist\n## Generated by cockpit-pacman\n##\n\n",
    );
    i = 0;
    assert(content@ + all_mirror_lines(all.take(0)) =~= content@);
    while i < mirrors.len()
        invariant
            i <= mirrors.len(),
            all == mirror_views(mirrors@),
            content@ == list_header() + all_mirror_lines(all.take(i as int)),
        decreases mirrors.len() - i,
    {
        let ghost before = content@;
        proof {
            let upto = all.take(i + 1);
            assert(upto.drop_last() =~= all.take(i as int));
            assert(upto.last() == mirrors@[i as int]@);
        }
        match &mirrors[i].comment {
            Some(c) => {
                content.append("## ");
                content.append(c.as_str());
                content.append("\n");
            },
            None => {},
        }
        if mirrors[i].enabled {
            content.append("Server = ");
        } else {
            content.append("#Server = ");
        }
        content.append(mirrors[i].url.as_str());
        content.append("\n");
        proof {
            assert(content@ =~= before + mirror_lines(mirrors@[i as int]@));
            assert(list_header() + (all_mirror_lines(all.take(i as int)) + mirror_lines(
                mirrors@[i as int]@,
            )) =~= before + mirror_lines(mirrors@[i as int]@));
        }
        i += 1;
    }
    assert(all.take(all.len() as int) =~= all);
    Ok(content)
}

/// A rejection among the first `n` mirrors is the rejection of the list.
pub proof fn lemma_rejection_stays(mirrors: Seq<MirrorEntryView>, n: int)
    requires
        0 <= n <= mirrors.len(),
        first_rejection(mirrors.take(n)) is Some,
    ensures
        first_rejection(mirrors) == first_rejection(mirrors.take(n)),
    decreases mirrors.len() - n,
{
    if n < mirrors.len() {
        assert(mirrors.take(n + 1).drop_last() =~= mirrors.take(n));
        lemma_rejection_stays(mirrors, n + 1);
    } else {
        assert(mirrors.take(n) =~= mirrors);
    }
}

/// What the caller is told of a list that was written.
#[derive(Debug, Clone, PartialEq, Eq)]
pub struct SaveMirrorlistResponse {
    pub success: bool,
    pub backup_path: Option<String>,
    pub message: String,
}

/// The report of a list of `count` mirrors that was written.
pub fn saved_response(count: usize, backup_path: Option<String>) -> (r: SaveMirrorlistResponse)
    ensures
        r.success,
        text_of(r.backup_path) == text_of(backup_path),
        r.message@ == "Saved "@ + decimal(count as nat) + " mirrors to "@ + MIRRORLIST_PATH@,
{
    let n = decimal_string(count as u64);
    let mut message = concat3("Saved ", n.as_str(), " mirrors to ");
    message.append(MIRRORLIST_PATH);
    SaveMirrorlistResponse { success: true, backup_path, message }
}

/// A backup of the list: its path and the time it was last written, in
/// seconds.
#[derive(Debug, Clone, PartialEq, Eq)]
pub struct BackupFile {
    pub path: String,
    pub modified: i64,
}

/// The keys by which backups are ranked: their times.
pub open spec fn backup_keys(backups: Seq<BackupFile>) -> Seq<crate::listing::SortKeyView> {
    Seq::new(backups.len(), |i: int| crate::listing::SortKeyView::Number(backups[i].modified))
}

/// Whether `paths` are the backups to remove: with the backups ranked from
/// the newest to the oldest, they are all but the first `MAX_BACKUPS`.
pub open spec fn are_stale(backups: Seq<BackupFile>, paths: Seq<Seq<char>>) -> bool {
    exists|order: Seq<usize>|
        #![trigger crate::listing::is_ordering(backup_keys(backups), false, order)]
        crate::listing::is_ordering(backup_keys(backups), false, order) && paths == Seq::new(
            if order.len() > MAX_BACKUPS {
                (order.len() - MAX_BACKUPS) as nat
            } else {
                0
            },
            |i: int| backups[order[i + MAX_BACKUPS] as int].path@,
        )
}

/// The backups to remove so that only the newest `MAX_BACKUPS` stay.
pub fn cleanup_old_backups(backups: &Vec<BackupFile>) -> (paths: Vec<String>)
    ensures
        are_stale(backups@, views(paths@)),
{
    let mut keys: Vec<crate::listing::SortKey> = Vec::new();
    let mut i: usize = 0;
    while i < backups.len()
        invariant
            i <= backups.len(),
            keys@.len() == i,
            forall|j: int|
                0 <= j < i ==> (#[trigger] keys@[j])@ == crate::listing::SortKeyView::Number(
                    backups@[j].modified,
                ),
        decreases backups.len() - i,
    {
        keys.push(crate::listing::SortKey::Number(backups[i].modified));
        i += 1;
    }
    assert(crate::listing::key_views(keys@) =~= backup_keys(backups@));
    let order = crate::listing::sort_with_direction(&keys, false);
    let mut paths: Vec<String> = Vec::new();
    let mut k: usize = MAX_BACKUPS;
    while k < order.len()
        invariant
            MAX_BACKUPS <= k,
            order@.len() == backups@.len(),
            forall|j: int| 0 <= j < order@.len() ==> (#[trigger] order@[j]) < backups@.len(),
            k <= order@.len() ==> paths@.len() == k - MAX_BACKUPS,
            k > order@.len() ==> paths@.len() == 0 && k == MAX_BACKUPS,
            forall|j: int|
                0 <= j < paths@.len() ==> (#[trigger] paths@[j])@ == backups@[order@[j
                    + MAX_BACKUPS] as int].path@,
        decreases order.len() - k,
    {
        paths.push(backups[order[k]].path.clone());
        k += 1;
    }
    proof {
        let want = Seq::new(
            if order@.len() > MAX_BACKUPS {
                (order@.len() - MAX_BACKUPS) as nat
            } else {
                0
            },
            |i: int| backups@[order@[i + MAX_BACKUPS] as int].path@,
        );
        assert(views(paths@).len() == want.len());
        assert forall|j: int| 0 <= j < want.len() implies views(paths@)[j] == want[j] by {
            assert(views(paths@)[j] == paths@[j]@);
        }
        assert(views(paths@) =~= want);
        assert(crate::listing::is_ordering(backup_keys(backups@), false, order@));
    }
    paths
}

} // verus!
