//! The history of package operations, read from the engine's log.
//!
//! A line of the log that reports an operation on a package begins with a
//! time in square brackets, names its source in square brackets, and then
//! says what was done to which package, with the versions in round
//! brackets. Every other line is passed over.

use vstd::prelude::*;
use vstd::string::*;

use crate::config::same_text;
use crate::events::text_of;
use crate::text::{
    count_leading_whitespace, count_trailing_whitespace, find, first_index_from, first_occurrence,
    has_prefix, occurs_in, slice_to_string, to_chars, to_lowercase, trim_range, trimmed,
    unicode_lowercase,
};
use crate::cache::last_index_before;

verus! {

/// One operation on a package, as the log reports it.
#[derive(Debug, Clone, PartialEq, Eq)]
pub struct LogEntry {
    pub timestamp: String,
    pub action: String,
    pub package: String,
    pub old_version: Option<String>,
    pub new_version: Option<String>,
}

/// The mathematical content of a [`LogEntry`].
pub struct LogEntryView {
    pub timestamp: Seq<char>,
    pub action: Seq<char>,
    pub package: Seq<char>,
    pub old_version: Option<Seq<char>>,
    pub new_version: Option<Seq<char>>,
}

impl View for LogEntry {
    type V = LogEntryView;

    open spec fn view(&self) -> LogEntryView {
        LogEntryView {
            timestamp: self.timestamp@,
            action: self.action@,
            package: self.package@,
            old_version: text_of(self.old_version),
            new_version: text_of(self.new_version),
        }
    }
}

/// The content of an optional entry.
pub open spec fn entry_view(e: Option<LogEntry>) -> Option<LogEntryView> {
    match e {
        Some(entry) => Some(entry@),
        None => None,
    }
}

/// The contents of a list of entries, element by element.
pub open spec fn entry_views(v: Seq<LogEntry>) -> Seq<LogEntryView> {
    Seq::new(v.len(), |i: int| v[i]@)
}

/// What an operation did: the action, the package, the version before and
/// the version after.
pub struct ActionView {
    pub action: Seq<char>,
    pub package: Seq<char>,
    pub old_version: Option<Seq<char>>,
    pub new_version: Option<Seq<char>>,
}

/// The part of `s` between `from` and `to`, without the white space around
/// it.
pub open spec fn trimmed_part(s: Seq<char>, from: int, to: int) -> Seq<char> {
    trimmed(s.subrange(from, to))
}

/// The index of the first occurrence of `needle` in `s`, or -1.
pub open spec fn first_occurrence_index(s: Seq<char>, needle: Seq<char>) -> int {
    if occurs_in(s, needle) {
        choose|i: int| first_occurrence(s, needle, i)
    } else {
        -1
    }
}

/// What the words behind the source say, for the lower-cased action
/// `action` and the rest `rest` of the words: the package is what stands
/// before the first opening bracket, the versions are what stands between
/// it and the last closing bracket. Words without the two brackets in this
/// order, or with an action that is none of the six, say nothing.
pub open spec fn action_of(action: Seq<char>, rest: Seq<char>) -> Option<ActionView> {
    let open = first_index_from(rest, '(', 0);
    let close = last_index_before(rest, ')', rest.len() as int);
    if open < 0 || close <= open {
        None
    } else {
        let package = trimmed_part(rest, 0, open);
        let versions = rest.subrange(open + 1, close);
        let whole = trimmed(versions);
        if action == "upgraded"@ || action == "downgraded"@ {
            let arrow = first_occurrence_index(versions, " -> "@);
            if arrow >= 0 {
                Some(
                    ActionView {
                        action,
                        package,
                        old_version: Some(trimmed_part(versions, 0, arrow)),
                        new_version: Some(
                            trimmed_part(versions, arrow + 4, versions.len() as int),
                        ),
                    },
                )
            } else {
                Some(ActionView { action, package, old_version: None, new_version: None })
            }
        } else if action == "installed"@ {
            Some(ActionView { action, package, old_version: None, new_version: Some(whole) })
        } else if action == "removed"@ || action == "uninstalled"@ {
            Some(
                ActionView {
                    action: "removed"@,
                    package,
                    old_version: Some(whole),
                    new_version: None,
                },
            )
        } else if action == "reinstalled"@ {
            Some(
                ActionView {
                    action,
                    package,
                    old_version: Some(whole),
                    new_version: Some(whole),
                },
            )
        } else {
            None
        }
    }
}

/// What the words `s` say: the first word, in lower case, is the action;
/// the rest is read by [`action_of`]. A single word says nothing.
pub open spec fn parsed_action(s: Seq<char>) -> Option<ActionView> {
    let space = first_index_from(s, ' ', 0);
    if space < 0 {
        None
    } else {
        action_of(unicode_lowercase(s.take(space)), s.skip(space + 1))
    }
}

/// What the part of a line behind its time reports, where it reports an
/// operation: it begins with one of the two sources, and the words behind
/// the source say what was done.
pub open spec fn parsed_tagged(timestamp: Seq<char>, rest: Seq<char>) -> Option<LogEntryView> {
    let source_end = first_index_from(rest, ']', 0);
    if !(has_prefix(rest, "[ALPM]"@) || has_prefix(rest, "[PACMAN]"@)) || source_end < 0
        || source_end + 2 > rest.len() {
        None
    } else {
        let words = trimmed(rest.skip(source_end + 2));
        if words.len() == 0 {
            None
        } else {
            match parsed_action(words) {
                Some(a) => Some(
                    LogEntryView {
                        timestamp,
                        action: a.action,
                        package: a.package,
                        old_version: a.old_version,
                        new_version: a.new_version,
                    },
                ),
                None => None,
            }
        }
    }
}

/// What a line of the log reports, where it reports an operation. The time
/// stands between the opening bracket that begins the line and the first
/// closing bracket; the rest begins two characters behind that.
pub open spec fn parsed_line(line: Seq<char>) -> Option<LogEntryView> {
    let time_end = first_index_from(line, ']', 0);
    if line.len() == 0 || line[0] != '[' || time_end < 0 || time_end + 2 > line.len() {
        None
    } else {
        parsed_tagged(line.subrange(1, time_end), line.skip(time_end + 2))
    }
}

/// What an operation did, as strings.
#[derive(Debug, Clone, PartialEq, Eq)]
pub struct Action {
    pub action: String,
    pub package: String,
    pub old_version: Option<String>,
    pub new_version: Option<String>,
}

impl View for Action {
    type V = ActionView;

    open spec fn view(&self) -> ActionView {
        ActionView {
            action: self.action@,
            package: self.package@,
            old_version: text_of(self.old_version),
            new_version: text_of(self.new_version),
        }
    }
}

/// The content of an optional action.
pub open spec fn action_view(a: Option<Action>) -> Option<ActionView> {
    match a {
        Some(action) => Some(action@),
        None => None,
    }
}

/// Reads the package and the versions for the lower-cased action
/// `action` from the characters `chars[from..to]`.
fn read_action(action: String, chars: &Vec<char>, from: usize, to: usize) -> (r: Option<Action>)
    requires
        from <= to <= chars.len(),
    ensures
        action_view(r) == action_of(action@, chars@.subrange(from as int, to as int)),
{
    let ghost rest = chars@.subrange(from as int, to as int);
    let open = match find_in_range(chars, '(', from, to) {
        Some(i) => i,
        None => {
            return None;
        },
    };
    let close = match last_in_range(chars, ')', from, to) {
        Some(i) => i,
        None => {
            return None;
        },
    };
    if close <= open {
        return None;
    }
    let package = trim_range(chars, from, open);
    proof {
        assert(rest.subrange(0, open - from) =~= chars@.subrange(from as int, open as int));
        assert(rest.subrange(open - from + 1, close - from) =~= chars@.subrange(
            open + 1,
            close as int,
        ));
    }
    let ghost versions = chars@.subrange(open + 1, close as int);
    let upgraded = same_text(action.as_str(), "upgraded");
    let downgraded = same_text(action.as_str(), "downgraded");
    if upgraded || downgraded {
        let arrow = to_chars(" -> ");
        proof {
            reveal_strlit(" -> ");
        }
        match find_within(chars, &arrow, open + 1, close) {
            Some(at) => {
                let old_version = trim_range(chars, open + 1, at);
                let new_version = trim_range(chars, at + 4, close);
                proof {
                    assert(versions.subrange(0, at - (open + 1)) =~= chars@.subrange(
                        open + 1,
                        at as int,
                    ));
                    assert(versions.subrange(at - (open + 1) + 4, versions.len() as int)
                        =~= chars@.subrange(at + 4, close as int));
                }
                Some(
                    Action {
                        action,
                        package,
                        old_version: Some(old_version),
                        new_version: Some(new_version),
                    },
                )
            },
            None => Some(Action { action, package, old_version: None, new_version: None }),
        }
    } else if same_text(action.as_str(), "installed") {
        let version = trim_range(chars, open + 1, close);
        Some(Action { action, package, old_version: None, new_version: Some(version) })
    } else if same_text(action.as_str(), "removed") || same_text(action.as_str(), "uninstalled") {
        let version = trim_range(chars, open + 1, close);
        Some(
            Action {
                action: String::from_str("removed"),
                package,
                old_version: Some(version),
                new_version: None,
            },
        )
    } else if same_text(action.as_str(), "reinstalled") {
        let version = trim_range(chars, open + 1, close);
        let again = version.clone();
        Some(Action { action, package, old_version: Some(version), new_version: Some(again) })
    } else {
        None
    }
}

/// The index of the first `c` in `chars[from..to]`.
fn find_in_range(chars: &Vec<char>, c: char, from: usize, to: usize) -> (r: Option<usize>)
    requires
        from <= to <= chars.len(),
    ensures
        match r {
            Some(i) => from <= i < to && chars@[i as int] == c && first_index_from(
                chars@.subrange(from as int, to as int),
                c,
                0,
            ) == i - from,
            None => first_index_from(chars@.subrange(from as int, to as int), c, 0) == -1,
        },
{
    let ghost part = chars@.subrange(from as int, to as int);
    let mut i: usize = from;
    while i < to
        invariant
            from <= i <= to <= chars.len(),
            part == chars@.subrange(from as int, to as int),
            first_index_from(part, c, 0) == first_index_from(part, c, i - from),
        decreases to - i,
    {
        assert(part[i - from] == chars@[i as int]);
        if chars[i] == c {
            return Some(i);
        }
        i += 1;
    }
    None
}

/// The index of the last `c` in `chars[from..to]`.
fn last_in_range(chars: &Vec<char>, c: char, from: usize, to: usize) -> (r: Option<usize>)
    requires
        from <= to <= chars.len(),
    ensures
        match r {
            Some(i) => from <= i < to && last_index_before(
                chars@.subrange(from as int, to as int),
                c,
                to - from,
            ) == i - from,
            None => last_index_before(chars@.subrange(from as int, to as int), c, to - from) == -1,
        },
{
    let ghost part = chars@.subrange(from as int, to as int);
    let mut i: usize = to;
    while i > from
        invariant
            from <= i <= to <= chars.len(),
            part == chars@.subrange(from as int, to as int),
            last_index_before(part, c, to - from) == last_index_before(part, c, i - from),
        decreases i,
    {
        assert(part[i - 1 - from] == chars@[i - 1]);
        if chars[i - 1] == c {
            return Some(i - 1);
        }
        i -= 1;
    }
    None
}

/// The index in `chars` of the first occurrence of `needle` within
/// `chars[from..to]`.
fn find_within(chars: &Vec<char>, needle: &Vec<char>, from: usize, to: usize) -> (r: Option<usize>)
    requires
        from <= to <= chars.len(),
        needle.len() > 0,
    ensures
        match r {
            Some(i) => from <= i && i + needle.len() <= to && first_occurrence_index(
                chars@.subrange(from as int, to as int),
                needle@,
            ) == i - from,
            None => first_occurrence_index(chars@.subrange(from as int, to as int), needle@) == -1,
        },
{
    let ghost part = chars@.subrange(from as int, to as int);
    let mut window: Vec<char> = Vec::new();
    let mut k: usize = from;
    while k < to
        invariant
            from <= k <= to <= chars.len(),
            window@ == chars@.subrange(from as int, k as int),
        decreases to - k,
    {
        window.push(chars[k]);
        assert(chars@.subrange(from as int, k + 1) =~= chars@.subrange(from as int, k as int).push(
            chars@[k as int],
        ));
        k += 1;
    }
    match find(&window, needle) {
        Some(i) => {
            proof {
                assert(first_occurrence(part, needle@, i as int));
                let chosen = choose|j: int| first_occurrence(part, needle@, j);
                assert(chosen == i) by {
                    if chosen < i {
                        assert(!crate::text::occurs_at(part, needle@, chosen));
                    }
                    if chosen > i {
                        assert(!crate::text::occurs_at(part, needle@, i as int));
                    }
                }
            }
            Some(from + i)
        },
        None => None,
    }
}

/// Reads what the words `s` say: the action and what it was done to.
pub fn parse_action(s: &str) -> (r: Option<Action>)
    ensures
        action_view(r) == parsed_action(s@),
{
    let chars = to_chars(s);
    assert(chars@.subrange(0, chars@.len() as int) =~= chars@);
    parse_action_in(&chars, 0, chars.len())
}

/// Reads what the words `chars[from..to]` say.
fn parse_action_in(chars: &Vec<char>, from: usize, to: usize) -> (r: Option<Action>)
    requires
        from <= to <= chars.len(),
    ensures
        action_view(r) == parsed_action(chars@.subrange(from as int, to as int)),
{
    let ghost words = chars@.subrange(from as int, to as int);
    let space = match find_in_range(chars, ' ', from, to) {
        Some(i) => i,
        None => {
            return None;
        },
    };
    let first = slice_to_string(chars, from, space);
    let action = to_lowercase(first.as_str());
    proof {
        assert(words.take(space - from) =~= chars@.subrange(from as int, space as int));
        assert(words.skip(space - from + 1) =~= chars@.subrange(space + 1, to as int));
    }
    read_action(action, chars, space + 1, to)
}

/// Reads the part of a line that begins at `start`, behind the time.
fn parse_tagged(chars: &Vec<char>, start: usize, timestamp: String) -> (r: Option<LogEntry>)
    requires
        start <= chars.len(),
    ensures
        entry_view(r) == parsed_tagged(timestamp@, chars@.skip(start as int)),
{
    let n = chars.len();
    let ghost rest = chars@.skip(start as int);
    assert(rest =~= chars@.subrange(start as int, n as int));
    let alpm = to_chars("[ALPM]");
    let pacman = to_chars("[PACMAN]");
    let tagged = starts_at(chars, &alpm, start) || starts_at(chars, &pacman, start);
    if !tagged {
        return None;
    }
    let source_end = match find_in_range(chars, ']', start, n) {
        Some(i) => i,
        None => {
            return None;
        },
    };
    if n - source_end < 2 {
        return None;
    }
    let from: usize = source_end + 2;
    proof {
        assert(rest.skip(source_end - start + 2) =~= chars@.subrange(from as int, n as int));
    }
    let lead = count_leading_whitespace(chars, from, n);
    let begin: usize = from + lead;
    let trail = count_trailing_whitespace(chars, begin, n);
    let end: usize = n - trail;
    proof {
        let tail = chars@.subrange(from as int, n as int);
        assert(crate::text::trimmed_start(tail) =~= chars@.subrange(begin as int, n as int));
        assert(crate::text::trimmed_end(chars@.subrange(begin as int, n as int))
            =~= chars@.subrange(begin as int, end as int));
    }
    if begin == end {
        return None;
    }
    match parse_action_in(chars, begin, end) {
        Some(a) => Some(
            LogEntry {
                timestamp,
                action: a.action,
                package: a.package,
                old_version: a.old_version,
                new_version: a.new_version,
            },
        ),
        None => None,
    }
}

/// Reads a line of the log. A line that reports no operation on a package
/// gives nothing.
pub fn parse_log_line(line: &str) -> (r: Option<LogEntry>)
    ensures
        entry_view(r) == parsed_line(line@),
{
    let chars = to_chars(line);
    let n = chars.len();
    if n == 0 || chars[0] != '[' {
        return None;
    }
    assert(chars@.subrange(0, n as int) =~= chars@);
    let time_end = match find_in_range(&chars, ']', 0, n) {
        Some(i) => i,
        None => {
            return None;
        },
    };
    if n - time_end < 2 {
        return None;
    }
    let timestamp = slice_to_string(&chars, 1, time_end);
    parse_tagged(&chars, time_end + 2, timestamp)
}

/// Whether `needle` stands in `chars` at offset `at`, seen from `at` on.
fn starts_at(chars: &Vec<char>, needle: &Vec<char>, at: usize) -> (r: bool)
    requires
        at <= chars.len(),
    ensures
        r == has_prefix(chars@.skip(at as int), needle@),
{
    let r = crate::text::matches_at(chars, needle, at);
    proof {
        let rest = chars@.skip(at as int);
        if at + needle@.len() <= chars@.len() {
            assert(rest.subrange(0, needle@.len() as int) =~= chars@.subrange(
                at as int,
                at + needle@.len(),
            ));
        }
    }
    r
}

/// How many operations of each kind the log reports.
#[derive(Debug, Clone, Copy, PartialEq, Eq, Structural)]
pub struct LogCounts {
    pub upgraded: usize,
    pub installed: usize,
    pub removed: usize,
    pub other: usize,
}

/// The counts `counts` after an operation with the action `action`.
pub open spec fn counted(counts: (nat, nat, nat, nat), action: Seq<char>) -> (nat, nat, nat, nat) {
    if action == "upgraded"@ {
        (counts.0 + 1, counts.1, counts.2, counts.3)
    } else if action == "installed"@ {
        (counts.0, counts.1 + 1, counts.2, counts.3)
    } else if action == "removed"@ || action == "uninstalled"@ {
        (counts.0, counts.1, counts.2 + 1, counts.3)
    } else {
        (counts.0, counts.1, counts.2, counts.3 + 1)
    }
}

/// Whether an operation with the action `action` passes the filter: the
/// filters `upgraded`, `installed` and `removed` pass their own kind, and
/// every other filter, like none, passes all.
pub open spec fn passes(action: Seq<char>, filter: Option<Seq<char>>) -> bool {
    match filter {
        Some(f) => if f == "upgraded"@ {
            action == "upgraded"@
        } else if f == "installed"@ {
            action == "installed"@
        } else if f == "removed"@ {
            action == "removed"@ || action == "uninstalled"@
        } else {
            true
        },
        None => true,
    }
}

/// The operations that the lines report and that pass the filter, in the
/// order of the lines.
pub open spec fn reported(lines: Seq<Seq<char>>, filter: Option<Seq<char>>) -> Seq<LogEntryView>
    decreases lines.len(),
{
    if lines.len() == 0 {
        Seq::empty()
    } else {
        let before = reported(lines.drop_last(), filter);
        match parsed_line(lines.last()) {
            Some(entry) => if passes(entry.action, filter) {
                before.push(entry)
            } else {
                before
            },
            None => before,
        }
    }
}

/// How many operations of each kind the lines report, whatever the filter.
pub open spec fn tally(lines: Seq<Seq<char>>) -> (nat, nat, nat, nat)
    decreases lines.len(),
{
    if lines.len() == 0 {
        (0, 0, 0, 0)
    } else {
        let before = tally(lines.drop_last());
        match parsed_line(lines.last()) {
            Some(entry) => counted(before, entry.action),
            None => before,
        }
    }
}

/// The counts as numbers without bound.
pub open spec fn counts_view(c: LogCounts) -> (nat, nat, nat, nat) {
    (c.upgraded as nat, c.installed as nat, c.removed as nat, c.other as nat)
}

/// The content of an optional filter.
pub open spec fn filter_view(filter: Option<&str>) -> Option<Seq<char>> {
    match filter {
        Some(f) => Some(f@),
        None => None,
    }
}

/// Whether an operation with the action `action` passes the filter.
pub fn matches_filter(action: &str, filter: Option<&str>) -> (r: bool)
    ensures
        r == passes(action@, filter_view(filter)),
{
    match filter {
        Some(f) => if same_text(f, "upgraded") {
            same_text(action, "upgraded")
        } else if same_text(f, "installed") {
            same_text(action, "installed")
        } else if same_text(f, "removed") {
            same_text(action, "removed") || same_text(action, "uninstalled")
        } else {
            true
        },
        None => true,
    }
}

/// The counts after an operation with the action `action`.
fn count(counts: LogCounts, action: &str) -> (out: LogCounts)
    requires
        counts.upgraded + counts.installed + counts.removed + counts.other < usize::MAX,
    ensures
        counts_view(out) == counted(counts_view(counts), action@),
        out.upgraded + out.installed + out.removed + out.other == counts.upgraded
            + counts.installed + counts.removed + counts.other + 1,
{
    if same_text(action, "upgraded") {
        LogCounts { upgraded: counts.upgraded + 1, ..counts }
    } else if same_text(action, "installed") {
        LogCounts { installed: counts.installed + 1, ..counts }
    } else if same_text(action, "removed") || same_text(action, "uninstalled") {
        LogCounts { removed: counts.removed + 1, ..counts }
    } else {
        LogCounts { other: counts.other + 1, ..counts }
    }
}

/// Reads the log from its first line to its last. Gives the operations
/// that pass the filter, the newest first, and how many operations of each
/// kind the log reports in all.
pub fn read_log_forward(lines: &Vec<String>, filter: Option<&str>) -> (r: (Vec<LogEntry>, LogCounts))
    ensures
        entry_views(r.0@) == reported(crate::text::views(lines@), filter_view(filter)).reverse(),
        counts_view(r.1) == tally(crate::text::views(lines@)),
{
    let ghost all = crate::text::views(lines@);
    let mut found: Vec<LogEntry> = Vec::new();
    let mut counts = LogCounts { upgraded: 0, installed: 0, removed: 0, other: 0 };
    let mut i: usize = 0;
    assert(all.take(0) =~= Seq::<Seq<char>>::empty());
    assert(entry_views(found@) =~= Seq::<LogEntryView>::empty());
    while i < lines.len()
        invariant
            i <= lines.len(),
            all == crate::text::views(lines@),
            entry_views(found@) == reported(all.take(i as int), filter_view(filter)),
            counts_view(counts) == tally(all.take(i as int)),
            counts.upgraded + counts.installed + counts.removed + counts.other <= i,
        decreases lines.len() - i,
    {
        proof {
            let next = all.take(i + 1);
            assert(next.drop_last() =~= all.take(i as int));
            assert(next.last() == lines@[i as int]@);
        }
        match parse_log_line(lines[i].as_str()) {
            Some(entry) => {
                counts = count(counts, entry.action.as_str());
                if matches_filter(entry.action.as_str(), filter) {
                    let ghost before = entry_views(found@);
                    found.push(entry);
                    assert(entry_views(found@) =~= before.push(entry@));
                }
            },
            None => {},
        }
        i += 1;
    }
    assert(all.take(all.len() as int) =~= all);
    let newest_first = reversed(found);
    (newest_first, counts)
}

/// The entries of `v` in the opposite order.
pub fn reversed(v: Vec<LogEntry>) -> (out: Vec<LogEntry>)
    ensures
        entry_views(out@) == entry_views(v@).reverse(),
{
    let mut rest = v;
    let ghost all = rest@;
    let mut out: Vec<LogEntry> = Vec::new();
    while rest.len() > 0
        invariant
            rest@ == all.take(rest@.len() as int),
            out@.len() + rest@.len() == all.len(),
            forall|j: int| 0 <= j < out@.len() ==> out@[j] == all[all.len() - 1 - j],
        decreases rest.len(),
    {
        let ghost before = rest@;
        let entry = rest.pop().unwrap();
        assert(entry == all[before.len() - 1]);
        out.push(entry);
        assert(rest@ =~= all.take(rest@.len() as int));
    }
    assert(entry_views(out@) =~= entry_views(all).reverse());
    out
}

/// The page of `len` entries: the index of its first entry and the index
/// behind its last.
pub open spec fn page_bounds(len: nat, offset: usize, limit: usize) -> (int, int) {
    let from = if offset <= len {
        offset as int
    } else {
        len as int
    };
    let to = if limit <= len - from {
        from + limit
    } else {
        len as int
    };
    (from, to)
}

/// The page of `items` that skips the first `offset` entries and holds at
/// most `limit`.
pub fn paginate(items: Vec<LogEntry>, offset: usize, limit: usize) -> (page: Vec<LogEntry>)
    ensures
        page@ == items@.subrange(
            page_bounds(items@.len(), offset, limit).0,
            page_bounds(items@.len(), offset, limit).1,
        ),
{
    let n = items.len();
    let from: usize = if offset <= n {
        offset
    } else {
        n
    };
    let to: usize = if limit <= n - from {
        from + limit
    } else {
        n
    };
    let ghost all = items@;
    let mut page: Vec<LogEntry> = Vec::new();
    let mut at: usize = 0;
    for entry in it: items
        invariant
            it.seq() == all,
            at == it.index(),
            all.len() == n,
            from <= to <= all.len(),
            page@ == all.subrange(
                from as int,
                if it.index() <= from {
                    from as int
                } else if it.index() <= to {
                    it.index() as int
                } else {
                    to as int
                },
            ),
    {
        if from <= at && at < to {
            proof {
                assert(all.subrange(from as int, at + 1) =~= all.subrange(
                    from as int,
                    at as int,
                ).push(entry));
            }
            page.push(entry);
        }
        at += 1;
    }
    page
}

/// The history of package operations as the caller is told of it.
#[derive(Debug, Clone, PartialEq, Eq)]
pub struct LogResponse {
    pub entries: Vec<LogEntry>,
    pub total: usize,
    pub total_upgraded: usize,
    pub total_installed: usize,
    pub total_removed: usize,
    pub total_other: usize,
}

/// The operations of one run of the package manager, with how many there
/// were of each kind.
#[derive(Debug, Clone, PartialEq, Eq)]
pub struct LogGroup {
    pub id: String,
    pub start_time: String,
    pub end_time: String,
    pub entries: Vec<LogEntry>,
    pub upgraded_count: usize,
    pub installed_count: usize,
    pub removed_count: usize,
    pub downgraded_count: usize,
    pub reinstalled_count: usize,
}

/// A page of the history by runs, with the counts over the whole log.
#[derive(Debug, Clone, PartialEq, Eq)]
pub struct GroupedLogResponse {
    pub groups: Vec<LogGroup>,
    pub total_groups: usize,
    pub total_upgraded: usize,
    pub total_installed: usize,
    pub total_removed: usize,
    pub total_other: usize,
}

/// Whether the log is read from its end: it is where it has more than ten
/// mebibytes and at most a thousand entries are wanted.
pub open spec fn reads_backwards(file_size: u64, offset: usize, limit: usize) -> bool {
    file_size > 10 * 1024 * 1024 && offset + limit <= 1000
}

/// Decides whether the log is read from its end.
pub fn read_from_end(file_size: u64, offset: usize, limit: usize) -> (r: bool)
    ensures
        r == reads_backwards(file_size, offset, limit),
{
    file_size > 10485760 && offset <= 1000 && limit <= 1000 - offset
}

/// The page of the history asked for, from the lines of the log: the
/// operations that pass the filter, the newest first, from `offset` on and
/// at most `limit` of them; how many passed in all; and how many
/// operations of each kind the log reports.
pub fn get_history(lines: &Vec<String>, offset: usize, limit: usize, filter: Option<&str>) -> (r:
    LogResponse)
    ensures
        ({
            let all = reported(crate::text::views(lines@), filter_view(filter)).reverse();
            let bounds = page_bounds(all.len(), offset, limit);
            &&& entry_views(r.entries@) == all.subrange(bounds.0, bounds.1)
            &&& r.total == all.len()
            &&& (
                r.total_upgraded as nat,
                r.total_installed as nat,
                r.total_removed as nat,
                r.total_other as nat,
            ) == tally(crate::text::views(lines@))
        }),
{
    let (entries, counts) = read_log_forward(lines, filter);
    history_page(entries, counts, offset, limit)
}

/// The response that reports the page of `entries` from `offset` on with
/// at most `limit` of them, how many entries there are in all, and the
/// counts `counts`.
pub fn history_page(entries: Vec<LogEntry>, counts: LogCounts, offset: usize, limit: usize) -> (r:
    LogResponse)
    ensures
        ({
            let all = entry_views(entries@);
            let bounds = page_bounds(all.len(), offset, limit);
            &&& entry_views(r.entries@) == all.subrange(bounds.0, bounds.1)
            &&& r.total == all.len()
            &&& r.total_upgraded == counts.upgraded
            &&& r.total_installed == counts.installed
            &&& r.total_removed == counts.removed
            &&& r.total_other == counts.other
        }),
{
    let total = entries.len();
    let ghost all = entry_views(entries@);
    let ghost whole = entries@;
    let page = paginate(entries, offset, limit);
    proof {
        let bounds = page_bounds(all.len(), offset, limit);
        assert(entry_views(page@) =~= all.subrange(bounds.0, bounds.1)) by {
            assert(page@ == whole.subrange(bounds.0, bounds.1));
            assert forall|j: int| 0 <= j < page@.len() implies entry_views(page@)[j] == all.subrange(
                bounds.0,
                bounds.1,
            )[j] by {
                assert(page@[j] == whole[bounds.0 + j]);
            }
        }
    }
    LogResponse {
        entries: page,
        total,
        total_upgraded: counts.upgraded,
        total_installed: counts.installed,
        total_removed: counts.removed,
        total_other: counts.other,
    }
}

/// The counts `counts` after an operation with the action `action`, where
/// a count that has reached the largest number stays there.
pub open spec fn counted_on(counts: LogCounts, action: Seq<char>) -> LogCounts {
    if action == "upgraded"@ {
        LogCounts { upgraded: one_more(counts.upgraded), ..counts }
    } else if action == "installed"@ {
        LogCounts { installed: one_more(counts.installed), ..counts }
    } else if action == "removed"@ || action == "uninstalled"@ {
        LogCounts { removed: one_more(counts.removed), ..counts }
    } else {
        LogCounts { other: one_more(counts.other), ..counts }
    }
}

/// The number behind `n`, or `n` where there is none.
pub open spec fn one_more(n: usize) -> usize {
    if n < usize::MAX {
        (n + 1) as usize
    } else {
        n
    }
}

/// A reading of the log from its end, chunk by chunk, that stops as soon
/// as it has found as many operations as are wanted.
pub struct ReverseScan {
    found: Vec<LogEntry>,
    leftover: String,
    counts: LogCounts,
    needed: usize,
}

/// The mathematical content of a [`ReverseScan`].
pub struct ReverseScanView {
    /// The operations found, the newest first.
    pub found: Seq<LogEntryView>,
    /// The beginning of a line whose first part lies in a chunk not yet
    /// read.
    pub leftover: Seq<char>,
    /// How many operations of each kind were read.
    pub counts: LogCounts,
    /// How many operations are wanted.
    pub needed: usize,
}

impl View for ReverseScan {
    type V = ReverseScanView;

    closed spec fn view(&self) -> ReverseScanView {
        ReverseScanView {
            found: entry_views(self.found@),
            leftover: self.leftover@,
            counts: self.counts,
            needed: self.needed,
        }
    }
}

/// The reading after one more line.
pub open spec fn scanned_line(st: ReverseScanView, line: Seq<char>, filter: Option<Seq<char>>) -> ReverseScanView {
    match parsed_line(line) {
        Some(entry) => ReverseScanView {
            counts: counted_on(st.counts, entry.action),
            found: if passes(entry.action, filter) {
                st.found.push(entry)
            } else {
                st.found
            },
            ..st
        },
        None => st,
    }
}

/// The reading after the lines `lines`, taken from the last to the first,
/// up to the line with which enough operations are found.
pub open spec fn scanned_back(
    st: ReverseScanView,
    lines: Seq<Seq<char>>,
    filter: Option<Seq<char>>,
) -> ReverseScanView
    decreases lines.len(),
{
    if lines.len() == 0 {
        st
    } else {
        let next = scanned_line(st, lines.last(), filter);
        if next.found.len() > st.found.len() && next.found.len() >= st.needed {
            next
        } else {
            scanned_back(next, lines.drop_last(), filter)
        }
    }
}

/// The reading after the chunk `chunk`, which ends where the chunk read
/// before began. The chunk and the beginning of a line left over from the
/// chunk before make up whole lines, save the first, which may have begun
/// in a chunk not yet read: unless this chunk is the first of the file,
/// its first line is left over in turn.
pub open spec fn fed(
    st: ReverseScanView,
    chunk: Seq<char>,
    at_start: bool,
    filter: Option<Seq<char>>,
) -> ReverseScanView {
    let all = crate::text::lines_of(chunk + st.leftover);
    if !at_start && all.len() > 0 {
        scanned_back(ReverseScanView { leftover: all[0], ..st }, all.skip(1), filter)
    } else {
        scanned_back(ReverseScanView { leftover: Seq::empty(), ..st }, all, filter)
    }
}

/// The reading once no more chunks are read: a line left over is read
/// where more operations are wanted.
pub open spec fn finished(st: ReverseScanView, filter: Option<Seq<char>>) -> ReverseScanView {
    if st.leftover.len() > 0 && st.found.len() < st.needed {
        scanned_line(st, st.leftover, filter)
    } else {
        st
    }
}

impl ReverseScan {
    /// A reading that wants `needed` operations and has read nothing.
    pub fn new(needed: usize) -> (scan: ReverseScan)
        ensures
            scan@ == (ReverseScanView {
                found: Seq::empty(),
                leftover: Seq::empty(),
                counts: LogCounts { upgraded: 0, installed: 0, removed: 0, other: 0 },
                needed,
            }),
    {
        let scan = ReverseScan {
            found: Vec::new(),
            leftover: String::new(),
            counts: LogCounts { upgraded: 0, installed: 0, removed: 0, other: 0 },
            needed,
        };
        assert(scan@.found =~= Seq::empty());
        scan
    }

    /// Whether another chunk is wanted: fewer operations are found than
    /// are wanted.
    pub fn wants_more(&self) -> (r: bool)
        ensures
            r == (self@.found.len() < self@.needed),
    {
        self.found.len() < self.needed
    }

    /// Reads one line.
    fn take_line(&mut self, line: &str, filter: Option<&str>)
        ensures
            final(self)@ == scanned_line(old(self)@, line@, filter_view(filter)),
    {
        match parse_log_line(line) {
            Some(entry) => {
                self.counts = count_on(self.counts, entry.action.as_str());
                if matches_filter(entry.action.as_str(), filter) {
                    let ghost before = entry_views(self.found@);
                    self.found.push(entry);
                    assert(entry_views(self.found@) =~= before.push(entry@));
                }
            },
            None => {},
        }
    }

    /// Reads the chunk that ends where the chunk read before began.
    /// `at_start` says whether the chunk begins the file.
    pub fn feed(&mut self, chunk: &str, at_start: bool, filter: Option<&str>)
        ensures
            final(self)@ == fed(old(self)@, chunk@, at_start, filter_view(filter)),
    {
        let combined = crate::text::concat(chunk, self.leftover.as_str());
        let all = crate::text::lines(combined.as_str());
        let first: usize = if !at_start && all.len() > 0 {
            self.leftover = all[0].clone();
            1
        } else {
            self.leftover = String::new();
            0
        };
        let ghost body = crate::text::views(all@).skip(first as int);
        let ghost start = self@;
        let ghost target = fed(old(self)@, chunk@, at_start, filter_view(filter));
        let mut i: usize = all.len();
        proof {
            assert(body.take(body.len() as int) =~= body);
            if first == 0 {
                assert(body =~= crate::text::views(all@));
            }
            assert(target == scanned_back(start, body, filter_view(filter)));
        }
        while i > first
            invariant
                first <= i <= all.len(),
                body == crate::text::views(all@).skip(first as int),
                target == fed(old(self)@, chunk@, at_start, filter_view(filter)),
                target == scanned_back(start, body, filter_view(filter)),
                scanned_back(start, body, filter_view(filter)) == scanned_back(
                    self@,
                    body.take(i - first),
                    filter_view(filter),
                ),
            decreases i,
        {
            let ghost before = self@;
            let ghost part = body.take(i - first);
            let had = self.found.len();
            self.take_line(all[i - 1].as_str(), filter);
            proof {
                assert(part.last() == all@[i - 1]@);
                assert(part.drop_last() =~= body.take(i - 1 - first));
            }
            proof {
                assert(self@ == scanned_line(before, part.last(), filter_view(filter)));
                assert(had == before.found.len());
                assert(self.found@.len() == self@.found.len());
            }
            if self.found.len() > had && self.found.len() >= self.needed {
                assert(scanned_back(before, part, filter_view(filter)) == self@);
                return ;
            }
            i -= 1;
        }
        assert(body.take(0) =~= Seq::<Seq<char>>::empty());
    }

    /// Ends the reading. Gives the operations found, the oldest first, and
    /// how many operations of each kind were read.
    pub fn finish(self, filter: Option<&str>) -> (r: (Vec<LogEntry>, LogCounts))
        ensures
            entry_views(r.0@) == finished(self@, filter_view(filter)).found.reverse(),
            r.1 == finished(self@, filter_view(filter)).counts,
    {
        let mut scan = self;
        if !scan.leftover.as_str().is_empty() && scan.found.len() < scan.needed {
            let line = scan.leftover.clone();
            scan.take_line(line.as_str(), filter);
        }
        (reversed(scan.found), scan.counts)
    }
}

/// The counts after an operation with the action `action`.
fn count_on(counts: LogCounts, action: &str) -> (out: LogCounts)
    ensures
        out == counted_on(counts, action@),
{
    if same_text(action, "upgraded") {
        LogCounts { upgraded: next_count(counts.upgraded), ..counts }
    } else if same_text(action, "installed") {
        LogCounts { installed: next_count(counts.installed), ..counts }
    } else if same_text(action, "removed") || same_text(action, "uninstalled") {
        LogCounts { removed: next_count(counts.removed), ..counts }
    } else {
        LogCounts { other: next_count(counts.other), ..counts }
    }
}

/// The number behind `n`, or `n` where there is none.
fn next_count(n: usize) -> (m: usize)
    ensures
        m == one_more(n),
{
    if n < usize::MAX {
        n + 1
    } else {
        n
    }
}

} // verus!
