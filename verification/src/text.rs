//! Character-level string utilities with exact contracts over `Seq<char>`.
//!
//! Strings are processed as sequences of Unicode scalar values. Every search
//! and slicing routine here is verified against a direct mathematical
//! statement of its result; only the conversions that std alone can perform
//! are trusted, and each of those says so.

use vstd::prelude::*;
use vstd::string::*;

verus! {

/// `needle` stands in `hay` at offset `i`.
pub open spec fn occurs_at(hay: Seq<char>, needle: Seq<char>, i: int) -> bool {
    &&& 0 <= i
    &&& i + needle.len() <= hay.len()
    &&& hay.subrange(i, i + needle.len()) == needle
}

/// `needle` stands somewhere in `hay`.
pub open spec fn occurs_in(hay: Seq<char>, needle: Seq<char>) -> bool {
    exists|i: int| occurs_at(hay, needle, i)
}

/// `i` is the offset of the first occurrence of `needle` in `hay`.
pub open spec fn first_occurrence(hay: Seq<char>, needle: Seq<char>, i: int) -> bool {
    &&& occurs_at(hay, needle, i)
    &&& forall|j: int| 0 <= j < i ==> !occurs_at(hay, needle, j)
}

/// `i` is the offset of the last occurrence of `needle` in `hay`.
pub open spec fn last_occurrence(hay: Seq<char>, needle: Seq<char>, i: int) -> bool {
    &&& occurs_at(hay, needle, i)
    &&& forall|j: int| i < j ==> !occurs_at(hay, needle, j)
}

/// `hay` begins with `prefix`.
pub open spec fn has_prefix(hay: Seq<char>, prefix: Seq<char>) -> bool {
    occurs_at(hay, prefix, 0)
}

/// `hay` ends with `suffix`.
pub open spec fn has_suffix(hay: Seq<char>, suffix: Seq<char>) -> bool {
    occurs_at(hay, suffix, hay.len() - suffix.len())
}

/// The index of the first `c` in `s` at or behind `from`, or -1 where
/// there is none.
pub open spec fn first_index_from(s: Seq<char>, c: char, from: int) -> int
    decreases s.len() - from,
{
    if from < 0 || from >= s.len() {
        -1
    } else if s[from] == c {
        from
    } else {
        first_index_from(s, c, from + 1)
    }
}

/// Code points of general category Cc: the C0 and C1 control codes.
pub open spec fn is_control_char(c: char) -> bool {
    let n = c as u32;
    n <= 0x1f || (0x7f <= n && n <= 0x9f)
}

/// Code points with the Unicode White_Space property.
pub open spec fn is_whitespace_char(c: char) -> bool {
    let n = c as u32;
    ||| (0x09 <= n && n <= 0x0d)
    ||| n == 0x20
    ||| n == 0x85
    ||| n == 0xa0
    ||| n == 0x1680
    ||| (0x2000 <= n && n <= 0x200a)
    ||| n == 0x2028
    ||| n == 0x2029
    ||| n == 0x202f
    ||| n == 0x205f
    ||| n == 0x3000
}

/// ASCII letters and digits.
pub open spec fn is_ascii_alphanumeric_char(c: char) -> bool {
    ||| ('0' <= c && c <= '9')
    ||| ('a' <= c && c <= 'z')
    ||| ('A' <= c && c <= 'Z')
}

/// Length of the longest prefix of `s` made of whitespace only.
pub open spec fn leading_whitespace(s: Seq<char>) -> nat
    decreases s.len(),
{
    if s.len() > 0 && is_whitespace_char(s[0]) {
        1 + leading_whitespace(s.drop_first())
    } else {
        0
    }
}

/// Length of the longest suffix of `s` made of whitespace only.
pub open spec fn trailing_whitespace(s: Seq<char>) -> nat
    decreases s.len(),
{
    if s.len() > 0 && is_whitespace_char(s.last()) {
        1 + trailing_whitespace(s.drop_last())
    } else {
        0
    }
}

/// `s` without its trailing whitespace.
pub open spec fn trimmed_end(s: Seq<char>) -> Seq<char> {
    s.take(s.len() - trailing_whitespace(s))
}

/// `s` without its leading whitespace.
pub open spec fn trimmed_start(s: Seq<char>) -> Seq<char> {
    s.skip(leading_whitespace(s) as int)
}

/// `s` without leading and trailing whitespace.
pub open spec fn trimmed(s: Seq<char>) -> Seq<char> {
    trimmed_end(trimmed_start(s))
}

/// The decimal digit for `d`, where `d < 10`.
pub open spec fn digit_char(d: nat) -> char {
    if d == 0 {
        '0'
    } else if d == 1 {
        '1'
    } else if d == 2 {
        '2'
    } else if d == 3 {
        '3'
    } else if d == 4 {
        '4'
    } else if d == 5 {
        '5'
    } else if d == 6 {
        '6'
    } else if d == 7 {
        '7'
    } else if d == 8 {
        '8'
    } else {
        '9'
    }
}

/// The numeral of `n` to the base `base`, without leading zeros.
pub open spec fn numeral(n: nat, base: nat) -> Seq<char>
    recommends
        2 <= base <= 10,
    decreases n,
    via numeral_terminates
{
    if n < base || base < 2 {
        seq![digit_char(n)]
    } else {
        numeral(n / base, base).push(digit_char(n % base))
    }
}

#[via_fn]
proof fn numeral_terminates(n: nat, base: nat) {
    if !(n < base || base < 2) {
        assert(n / base < n) by (nonlinear_arith)
            requires
                n >= base,
                base >= 2,
        ;
    }
}

/// The decimal numeral of `n`, without leading zeros.
pub open spec fn decimal(n: nat) -> Seq<char> {
    numeral(n, 10)
}

/// The octal numeral of `n`, without leading zeros.
pub open spec fn octal(n: nat) -> Seq<char> {
    numeral(n, 8)
}

/// The decimal numeral of `n`, with a minus sign where `n` is negative.
pub open spec fn signed_decimal(n: int) -> Seq<char> {
    if n < 0 {
        seq!['-'] + decimal((-n) as nat)
    } else {
        decimal(n as nat)
    }
}

/// The parts in `parts`, with `sep` between each two neighbours.
pub open spec fn joined(parts: Seq<Seq<char>>, sep: Seq<char>) -> Seq<char>
    decreases parts.len(),
{
    if parts.len() == 0 {
        Seq::empty()
    } else if parts.len() == 1 {
        parts[0]
    } else {
        joined(parts.drop_last(), sep) + sep + parts.last()
    }
}

/// `s` with every occurrence of `pat` taken out, scanning from the left and
/// resuming behind each occurrence found. An empty `pat` occurs nowhere.
pub open spec fn without_all(s: Seq<char>, pat: Seq<char>) -> Seq<char>
    decreases s.len(),
{
    if s.len() == 0 || pat.len() == 0 {
        s
    } else if occurs_at(s, pat, 0) {
        without_all(s.skip(pat.len() as int), pat)
    } else {
        seq![s[0]] + without_all(s.drop_first(), pat)
    }
}

/// `s` with `with` put in place of every occurrence of `pat`, scanning
/// from the left and resuming behind each occurrence found. An empty `pat`
/// occurs nowhere.
pub open spec fn replaced_all(s: Seq<char>, pat: Seq<char>, with: Seq<char>) -> Seq<char>
    decreases s.len(),
{
    if s.len() == 0 || pat.len() == 0 {
        s
    } else if occurs_at(s, pat, 0) {
        with + replaced_all(s.skip(pat.len() as int), pat, with)
    } else {
        seq![s[0]] + replaced_all(s.drop_first(), pat, with)
    }
}

/// The value of the decimal digit `c`, where it is one.
pub open spec fn digit_value(c: char) -> Option<nat> {
    if '0' <= c && c <= '9' {
        Some((c as u32 - '0' as u32) as nat)
    } else {
        None
    }
}

/// The number that the decimal digits `s` spell, where all are digits.
pub open spec fn digits_value(s: Seq<char>) -> Option<nat>
    decreases s.len(),
{
    if s.len() == 0 {
        Some(0)
    } else {
        match (digits_value(s.drop_last()), digit_value(s.last())) {
            (Some(high), Some(low)) => Some(high * 10 + low),
            _ => None,
        }
    }
}

/// The number that the digits `digits` spell, where there is at least one
/// digit, all are digits, and the number fits 64 bits.
pub open spec fn bounded_digits(digits: Seq<char>) -> Option<u64> {
    match digits_value(digits) {
        Some(n) => if digits.len() > 0 && n <= u64::MAX {
            Some(n as u64)
        } else {
            None
        },
        None => None,
    }
}

/// The number that `s` spells: an optional plus sign and at least one
/// decimal digit, and nothing else; a number too large for 64 bits is
/// none.
pub open spec fn unsigned_value(s: Seq<char>) -> Option<u64> {
    bounded_digits(
        if s.len() > 0 && s[0] == '+' {
            s.drop_first()
        } else {
            s
        },
    )
}

/// The number that `s` spells: an optional sign and at least one decimal
/// digit, and nothing else; a number that does not fit 64 bits with its
/// sign is none.
pub open spec fn signed_value(s: Seq<char>) -> Option<i64> {
    let negative = s.len() > 0 && s[0] == '-';
    let digits = if s.len() > 0 && (s[0] == '-' || s[0] == '+') {
        s.drop_first()
    } else {
        s
    };
    match bounded_digits(digits) {
        Some(n) => if negative {
            if n <= 9223372036854775808 {
                Some((-(n as int)) as i64)
            } else {
                None
            }
        } else if n <= 9223372036854775807 {
            Some(n as i64)
        } else {
            None
        },
        None => None,
    }
}

/// `s` without a carriage return at its end.
pub open spec fn without_cr(s: Seq<char>) -> Seq<char> {
    if s.len() > 0 && s.last() == '\r' {
        s.drop_last()
    } else {
        s
    }
}

/// The lines of `s`: a line ends at a line feed, or at the end of `s`
/// where text is left; a carriage return before a line feed belongs to
/// the line ending.
pub open spec fn lines_of(s: Seq<char>) -> Seq<Seq<char>>
    decreases s.len(),
{
    let end = first_index_from(s, '\n', 0);
    if s.len() == 0 {
        Seq::empty()
    } else if end < 0 || end >= s.len() {
        seq![s]
    } else {
        seq![without_cr(s.take(end))] + lines_of(s.skip(end + 1))
    }
}

/// What `str::to_lowercase` makes of a string: its Unicode lower-case form.
pub uninterp spec fn unicode_lowercase(s: Seq<char>) -> Seq<char>;

/// The views of a vector of strings, element by element.
pub open spec fn views(v: Seq<String>) -> Seq<Seq<char>> {
    Seq::new(v.len(), |i: int| v[i]@)
}

/// Calls `String::push`, which appends one character to the string.
#[verifier::external_body]
fn push_char(s: &mut String, c: char)
    ensures
        final(s)@ == old(s)@.push(c),
{
    s.push(c);
}

/// Calls `str::to_lowercase`; the result is named, not described, because the
/// Unicode case mapping is a table of std's.
#[verifier::external_body]
fn std_to_lowercase(s: &str) -> (out: String)
    ensures
        out@ == unicode_lowercase(s@),
{
    s.to_lowercase()
}

/// The Unicode lower-case form of `s`.
pub fn to_lowercase(s: &str) -> (out: String)
    ensures
        out@ == unicode_lowercase(s@),
{
    std_to_lowercase(s)
}

/// The characters of `s`, in order.
pub fn to_chars(s: &str) -> (out: Vec<char>)
    ensures
        out@ == s@,
{
    let mut out: Vec<char> = Vec::new();
    for c in it: s.chars()
        invariant
            out@ == s@.take(it.index() as int),
            it.seq() == s@,
    {
        out.push(c);
    }
    out
}

/// The string made of the characters `chars[from..to]`.
pub fn slice_to_string(chars: &Vec<char>, from: usize, to: usize) -> (out: String)
    requires
        from <= to <= chars.len(),
    ensures
        out@ == chars@.subrange(from as int, to as int),
{
    let mut out = String::new();
    let mut i: usize = from;
    while i < to
        invariant
            from <= i <= to <= chars.len(),
            out@ == chars@.subrange(from as int, i as int),
        decreases to - i,
    {
        push_char(&mut out, chars[i]);
        i += 1;
    }
    out
}

/// The string made of all of `chars`.
pub fn from_chars(chars: &Vec<char>) -> (out: String)
    ensures
        out@ == chars@,
{
    let out = slice_to_string(chars, 0, chars.len());
    assert(chars@.subrange(0, chars@.len() as int) == chars@);
    out
}

/// Length of `s` in bytes of its UTF-8 encoding.
pub fn byte_len(s: &str) -> (n: usize)
    ensures
        n == s.spec_bytes().len(),
{
    s.as_bytes().len()
}

/// Whether `c` is a control code.
pub fn is_control(c: char) -> (r: bool)
    ensures
        r == is_control_char(c),
{
    let n: u32 = c as u32;
    n <= 0x1f || (0x7f <= n && n <= 0x9f)
}

/// Whether `c` is white space.
pub fn is_whitespace(c: char) -> (r: bool)
    ensures
        r == is_whitespace_char(c),
{
    let n: u32 = c as u32;
    (0x09 <= n && n <= 0x0d) || n == 0x20 || n == 0x85 || n == 0xa0 || n == 0x1680 || (0x2000 <= n
        && n <= 0x200a) || n == 0x2028 || n == 0x2029 || n == 0x202f || n == 0x205f || n == 0x3000
}

/// Whether `c` is an ASCII letter or digit.
pub fn is_ascii_alphanumeric(c: char) -> (r: bool)
    ensures
        r == is_ascii_alphanumeric_char(c),
{
    ('0' <= c && c <= '9') || ('a' <= c && c <= 'z') || ('A' <= c && c <= 'Z')
}

/// Whether `needle` stands in `hay` at offset `at`.
pub fn matches_at(hay: &Vec<char>, needle: &Vec<char>, at: usize) -> (r: bool)
    ensures
        r == occurs_at(hay@, needle@, at as int),
{
    if needle.len() > hay.len() || at > hay.len() - needle.len() {
        return false;
    }
    let mut k: usize = 0;
    while k < needle.len()
        invariant
            k <= needle.len(),
            at + needle.len() <= hay.len(),
            forall|j: int| 0 <= j < k ==> hay@[at + j] == needle@[j],
        decreases needle.len() - k,
    {
        if hay[at + k] != needle[k] {
            assert(hay@.subrange(at as int, at + needle@.len())[k as int] != needle@[k as int]);
            return false;
        }
        k += 1;
    }
    assert(hay@.subrange(at as int, at + needle@.len()) =~= needle@);
    true
}

/// Offset of the first occurrence of `needle` in `hay`, if there is one.
pub fn find(hay: &Vec<char>, needle: &Vec<char>) -> (r: Option<usize>)
    ensures
        match r {
            Some(i) => first_occurrence(hay@, needle@, i as int),
            None => !occurs_in(hay@, needle@),
        },
{
    find_from(hay, needle, 0)
}

/// Offset of the first occurrence of `needle` in `hay` at or behind `from`.
pub fn find_from(hay: &Vec<char>, needle: &Vec<char>, from: usize) -> (r: Option<usize>)
    ensures
        match r {
            Some(i) => {
                &&& from <= i
                &&& occurs_at(hay@, needle@, i as int)
                &&& forall|j: int| from <= j < i ==> !occurs_at(hay@, needle@, j)
            },
            None => forall|j: int| from <= j ==> !occurs_at(hay@, needle@, j),
        },
{
    if needle.len() > hay.len() || from > hay.len() - needle.len() {
        return None;
    }
    let last: usize = hay.len() - needle.len();
    let mut i: usize = from;
    loop
        invariant
            from <= i <= last,
            last == hay.len() - needle.len(),
            forall|j: int| from <= j < i ==> !occurs_at(hay@, needle@, j),
        decreases last - i,
    {
        if matches_at(hay, needle, i) {
            return Some(i);
        }
        if i == last {
            return None;
        }
        i += 1;
    }
}

/// Offset of the last occurrence of `needle` in `hay`, if there is one.
pub fn rfind(hay: &Vec<char>, needle: &Vec<char>) -> (r: Option<usize>)
    ensures
        match r {
            Some(i) => last_occurrence(hay@, needle@, i as int),
            None => !occurs_in(hay@, needle@),
        },
{
    if needle.len() > hay.len() {
        return None;
    }
    let mut i: usize = hay.len() - needle.len();
    loop
        invariant
            i <= hay.len() - needle.len(),
            needle.len() <= hay.len(),
            forall|j: int| i < j ==> !occurs_at(hay@, needle@, j),
        decreases i,
    {
        if matches_at(hay, needle, i) {
            return Some(i);
        }
        if i == 0 {
            return None;
        }
        i -= 1;
    }
}

/// Whether `needle` stands somewhere in `hay`.
pub fn contains(hay: &Vec<char>, needle: &Vec<char>) -> (r: bool)
    ensures
        r == occurs_in(hay@, needle@),
{
    find(hay, needle).is_some()
}

/// Whether the string `hay` holds the string `needle`.
pub fn str_contains(hay: &str, needle: &str) -> (r: bool)
    ensures
        r == occurs_in(hay@, needle@),
{
    let h = to_chars(hay);
    let n = to_chars(needle);
    contains(&h, &n)
}

/// Whether `hay` begins with `prefix`.
pub fn starts_with(hay: &Vec<char>, prefix: &Vec<char>) -> (r: bool)
    ensures
        r == has_prefix(hay@, prefix@),
{
    matches_at(hay, prefix, 0)
}

/// Whether `hay` ends with `suffix`.
pub fn ends_with(hay: &Vec<char>, suffix: &Vec<char>) -> (r: bool)
    ensures
        r == has_suffix(hay@, suffix@),
{
    if suffix.len() > hay.len() {
        return false;
    }
    matches_at(hay, suffix, hay.len() - suffix.len())
}

/// Whether the character `c` occurs in `s`.
pub fn contains_char(s: &Vec<char>, c: char) -> (r: bool)
    ensures
        r == s@.contains(c),
{
    let mut i: usize = 0;
    while i < s.len()
        invariant
            i <= s.len(),
            forall|j: int| 0 <= j < i ==> s@[j] != c,
        decreases s.len() - i,
    {
        if s[i] == c {
            return true;
        }
        i += 1;
    }
    false
}

/// Index of the first `c` in `s` at or behind `from`, if there is one.
pub fn find_char_from(s: &Vec<char>, c: char, from: usize) -> (r: Option<usize>)
    ensures
        match r {
            Some(i) => from <= i < s.len() && s@[i as int] == c && first_index_from(
                s@,
                c,
                from as int,
            ) == i && forall|j: int| from <= j < i ==> s@[j] != c,
            None => first_index_from(s@, c, from as int) == -1 && forall|j: int|
                from <= j < s.len() ==> s@[j] != c,
        },
{
    let mut i: usize = from;
    while i < s.len()
        invariant
            from <= i,
            forall|j: int| from <= j < i && j < s.len() ==> s@[j] != c,
            first_index_from(s@, c, from as int) == first_index_from(s@, c, i as int),
        decreases s.len() - i,
    {
        if s[i] == c {
            return Some(i);
        }
        i += 1;
    }
    None
}

/// Index of the last `c` in `s` before `end`, if there is one.
pub fn rfind_char_before(s: &Vec<char>, c: char, end: usize) -> (r: Option<usize>)
    requires
        end <= s.len(),
    ensures
        match r {
            Some(i) => i < end && s@[i as int] == c && forall|j: int| i < j < end ==> s@[j] != c,
            None => forall|j: int| 0 <= j < end ==> s@[j] != c,
        },
{
    let mut i: usize = end;
    while i > 0
        invariant
            i <= end <= s.len(),
            forall|j: int| i <= j < end ==> s@[j] != c,
        decreases i,
    {
        i -= 1;
        if s[i] == c {
            return Some(i);
        }
    }
    None
}

/// Number of leading whitespace characters of `s[from..to]`.
pub fn count_leading_whitespace(s: &Vec<char>, from: usize, to: usize) -> (n: usize)
    requires
        from <= to <= s.len(),
    ensures
        n == leading_whitespace(s@.subrange(from as int, to as int)),
        from + n <= to,
{
    let mut i: usize = from;
    let ghost whole = s@.subrange(from as int, to as int);
    while i < to && is_whitespace(s[i])
        invariant
            from <= i <= to <= s.len(),
            whole == s@.subrange(from as int, to as int),
            leading_whitespace(whole) == (i - from) + leading_whitespace(
                s@.subrange(i as int, to as int),
            ),
        decreases to - i,
    {
        proof {
            let cur = s@.subrange(i as int, to as int);
            assert(cur[0] == s@[i as int]);
            assert(cur.drop_first() =~= s@.subrange(i + 1, to as int));
        }
        i += 1;
    }
    proof {
        let cur = s@.subrange(i as int, to as int);
        if i < to {
            assert(cur[0] == s@[i as int]);
        }
    }
    i - from
}

/// Number of trailing whitespace characters of `s[from..to]`.
pub fn count_trailing_whitespace(s: &Vec<char>, from: usize, to: usize) -> (n: usize)
    requires
        from <= to <= s.len(),
    ensures
        n == trailing_whitespace(s@.subrange(from as int, to as int)),
        from + n <= to,
{
    let mut i: usize = to;
    let ghost whole = s@.subrange(from as int, to as int);
    while i > from && is_whitespace(s[i - 1])
        invariant
            from <= i <= to <= s.len(),
            whole == s@.subrange(from as int, to as int),
            trailing_whitespace(whole) == (to - i) + trailing_whitespace(
                s@.subrange(from as int, i as int),
            ),
        decreases i,
    {
        proof {
            let cur = s@.subrange(from as int, i as int);
            assert(cur.last() == s@[i - 1]);
            assert(cur.drop_last() =~= s@.subrange(from as int, i - 1));
        }
        i -= 1;
    }
    proof {
        let cur = s@.subrange(from as int, i as int);
        if i > from {
            assert(cur.last() == s@[i - 1]);
        }
    }
    to - i
}

/// `s[from..to]` without leading and trailing whitespace, as a string.
pub fn trim_range(s: &Vec<char>, from: usize, to: usize) -> (out: String)
    requires
        from <= to <= s.len(),
    ensures
        out@ == trimmed(s@.subrange(from as int, to as int)),
{
    let lead = count_leading_whitespace(s, from, to);
    let start: usize = from + lead;
    let trail = count_trailing_whitespace(s, start, to);
    let out = slice_to_string(s, start, to - trail);
    proof {
        let whole = s@.subrange(from as int, to as int);
        assert(trimmed_start(whole) =~= s@.subrange(start as int, to as int));
        assert(trimmed_end(s@.subrange(start as int, to as int)) =~= s@.subrange(
            start as int,
            to - trail,
        ));
    }
    out
}

/// `s` without leading and trailing whitespace.
pub fn trim(s: &str) -> (out: String)
    ensures
        out@ == trimmed(s@),
{
    let chars = to_chars(s);
    let out = trim_range(&chars, 0, chars.len());
    assert(chars@.subrange(0, chars@.len() as int) == chars@);
    out
}

/// The numeral of `n` to the base `base`.
pub fn numeral_string(n: u64, base: u64) -> (out: String)
    requires
        2 <= base <= 10,
    ensures
        out@ == numeral(n as nat, base as nat),
{
    let mut digits: Vec<char> = Vec::new();
    let mut rest: u64 = n;
    // Digits are produced least significant first, then read backwards.
    while rest >= base
        invariant
            2 <= base <= 10,
            numeral(n as nat, base as nat) == numeral(rest as nat, base as nat)
                + digits@.reverse(),
        decreases rest,
    {
        let d: u64 = rest % base;
        let ghost before = digits@;
        digits.push(digit_of(d));
        proof {
            assert(digits@.reverse() =~= seq![digit_char(d as nat)] + before.reverse());
            assert(numeral(rest as nat, base as nat) == numeral(
                (rest / base) as nat,
                base as nat,
            ).push(digit_char(d as nat)));
            assert(numeral((rest / base) as nat, base as nat).push(digit_char(d as nat))
                + before.reverse() =~= numeral((rest / base) as nat, base as nat)
                + digits@.reverse());
        }
        rest = rest / base;
    }
    let ghost before = digits@;
    digits.push(digit_of(rest));
    proof {
        assert(digits@.reverse() =~= seq![digit_char(rest as nat)] + before.reverse());
        assert(numeral(rest as nat, base as nat) =~= seq![digit_char(rest as nat)]);
    }
    let mut out = String::new();
    let mut i: usize = digits.len();
    while i > 0
        invariant
            i <= digits.len(),
            out@ == digits@.reverse().take(digits.len() - i),
        decreases i,
    {
        i -= 1;
        push_char(&mut out, digits[i]);
        assert(digits@.reverse()[digits.len() - 1 - i] == digits@[i as int]);
        assert(out@ =~= digits@.reverse().take(digits.len() - i));
    }
    assert(digits@.reverse().take(digits.len() as int) =~= digits@.reverse());
    out
}

/// The decimal numeral of `n`.
pub fn decimal_string(n: u64) -> (out: String)
    ensures
        out@ == decimal(n as nat),
{
    numeral_string(n, 10)
}

/// The octal numeral of `n`.
pub fn octal_string(n: u64) -> (out: String)
    ensures
        out@ == octal(n as nat),
{
    numeral_string(n, 8)
}

/// The decimal numeral of `n`, with a minus sign where `n` is negative.
pub fn signed_decimal_string(n: i64) -> (out: String)
    ensures
        out@ == signed_decimal(n as int),
{
    if n < 0 {
        // The magnitude of the least value does not fit its own type.
        let magnitude: u64 = if n == i64::MIN {
            9223372036854775808
        } else {
            (-n) as u64
        };
        let digits = numeral_string(magnitude, 10);
        proof {
            reveal_strlit("-");
            assert("-"@ =~= seq!['-']);
        }
        concat("-", digits.as_str())
    } else {
        numeral_string(n as u64, 10)
    }
}

/// The digit character for `d`.
fn digit_of(d: u64) -> (c: char)
    requires
        d < 10,
    ensures
        c == digit_char(d as nat),
{
    if d == 0 {
        '0'
    } else if d == 1 {
        '1'
    } else if d == 2 {
        '2'
    } else if d == 3 {
        '3'
    } else if d == 4 {
        '4'
    } else if d == 5 {
        '5'
    } else if d == 6 {
        '6'
    } else if d == 7 {
        '7'
    } else if d == 8 {
        '8'
    } else {
        '9'
    }
}

/// `a` followed by `b`.
pub fn concat(a: &str, b: &str) -> (out: String)
    ensures
        out@ == a@ + b@,
{
    let mut out = String::from_str(a);
    out.append(b);
    out
}

/// `a`, `b` and `c` in a row.
pub fn concat3(a: &str, b: &str, c: &str) -> (out: String)
    ensures
        out@ == a@ + b@ + c@,
{
    let mut out = String::from_str(a);
    out.append(b);
    out.append(c);
    out
}

/// The strings of `parts` with `sep` between each two neighbours.
pub fn join(parts: &Vec<String>, sep: &str) -> (out: String)
    ensures
        out@ == joined(views(parts@), sep@),
{
    let mut out = String::new();
    let mut i: usize = 0;
    while i < parts.len()
        invariant
            i <= parts.len(),
            out@ == joined(views(parts@).take(i as int), sep@),
        decreases parts.len() - i,
    {
        proof {
            let next = views(parts@).take(i + 1);
            assert(next.drop_last() =~= views(parts@).take(i as int));
            assert(next.last() == parts@[i as int]@);
        }
        if i > 0 {
            out.append(sep);
        } else {
            assert(out@ + sep@.take(0) + parts@[0]@ =~= parts@[0]@);
        }
        out.append(parts[i].as_str());
        i += 1;
    }
    assert(views(parts@).take(parts@.len() as int) =~= views(parts@));
    out
}

/// `s` with every occurrence of `pat` taken out. An empty `pat` occurs
/// nowhere.
pub fn remove_all(s: &Vec<char>, pat: &Vec<char>) -> (out: Vec<char>)
    ensures
        out@ == without_all(s@, pat@),
{
    let mut out: Vec<char> = Vec::new();
    let mut i: usize = 0;
    if pat.len() == 0 {
        return copy_chars(s);
    }
    assert(out@ + without_all(s@.skip(0), pat@) =~= without_all(s@, pat@)) by {
        assert(s@.skip(0) =~= s@);
    }
    while i < s.len()
        invariant
            i <= s.len(),
            pat.len() > 0,
            without_all(s@, pat@) == out@ + without_all(s@.skip(i as int), pat@),
        decreases s.len() - i,
    {
        let ghost rest = s@.skip(i as int);
        if matches_at(s, pat, i) {
            proof {
                assert(rest.subrange(0, pat@.len() as int) =~= s@.subrange(
                    i as int,
                    i + pat@.len(),
                ));
                assert(rest.skip(pat@.len() as int) =~= s@.skip(i + pat@.len()));
            }
            i += pat.len();
        } else {
            proof {
                if i + pat@.len() <= s@.len() {
                    assert(rest.subrange(0, pat@.len() as int) =~= s@.subrange(
                        i as int,
                        i + pat@.len(),
                    ));
                }
                assert(rest.drop_first() =~= s@.skip(i + 1));
                assert(rest[0] == s@[i as int]);
            }
            let ghost before = out@;
            out.push(s[i]);
            assert(before + (seq![s@[i as int]] + without_all(s@.skip(i + 1), pat@)) =~= out@
                + without_all(s@.skip(i + 1), pat@));
            i += 1;
        }
    }
    assert(s@.skip(s@.len() as int) =~= Seq::<char>::empty());
    assert(out@ + Seq::<char>::empty() =~= out@);
    out
}

/// The lines of `s`.
pub fn lines(s: &str) -> (out: Vec<String>)
    ensures
        views(out@) == lines_of(s@),
{
    let chars = to_chars(s);
    let mut out: Vec<String> = Vec::new();
    let mut start: usize = 0;
    assert(chars@.skip(0) =~= chars@);
    assert(views(out@) =~= Seq::<Seq<char>>::empty());
    assert(Seq::<Seq<char>>::empty() + lines_of(chars@) =~= lines_of(chars@));
    while start < chars.len()
        invariant
            start <= chars.len(),
            lines_of(chars@) == views(out@) + lines_of(chars@.skip(start as int)),
        decreases chars.len() - start,
    {
        let ghost rest = chars@.skip(start as int);
        let ghost before = views(out@);
        match find_char_from(&chars, '\n', start) {
            Some(end) => {
                proof {
                    lemma_first_index_shift(chars@, '\n', start as int, start as int);
                }
                let stop: usize = if end > start && chars[end - 1] == '\r' {
                    end - 1
                } else {
                    end
                };
                let line = slice_to_string(&chars, start, stop);
                proof {
                    let piece = rest.take(end - start);
                    assert(piece =~= chars@.subrange(start as int, end as int));
                    assert(without_cr(piece) =~= chars@.subrange(start as int, stop as int));
                    assert(rest.skip(end - start + 1) =~= chars@.skip(end + 1));
                }
                out.push(line);
                proof {
                    assert(views(out@) =~= before.push(line@));
                    assert(before + (seq![line@] + lines_of(chars@.skip(end + 1))) =~= views(out@)
                        + lines_of(chars@.skip(end + 1)));
                }
                start = end + 1;
            },
            None => {
                proof {
                    lemma_first_index_shift(chars@, '\n', start as int, start as int);
                }
                let line = slice_to_string(&chars, start, chars.len());
                proof {
                    assert(rest =~= chars@.subrange(start as int, chars@.len() as int));
                    assert(chars@.skip(chars@.len() as int) =~= Seq::<char>::empty());
                }
                out.push(line);
                proof {
                    assert(views(out@) =~= before.push(line@));
                    assert(before + seq![line@] =~= views(out@) + Seq::<Seq<char>>::empty());
                }
                start = chars.len();
            },
        }
    }
    proof {
        assert(chars@.skip(chars@.len() as int) =~= Seq::<char>::empty());
        assert(views(out@) + Seq::<Seq<char>>::empty() =~= views(out@));
    }
    out
}

/// Looking for a character from `from` on finds the same place in a text
/// and in what is left of it behind `start`.
pub proof fn lemma_first_index_shift(s: Seq<char>, c: char, start: int, from: int)
    requires
        0 <= start <= from <= s.len(),
    ensures
        first_index_from(s, c, from) == -1 <==> first_index_from(s.skip(start), c, from - start)
            == -1,
        first_index_from(s, c, from) != -1 ==> first_index_from(s.skip(start), c, from - start)
            == first_index_from(s, c, from) - start,
    decreases s.len() - from,
{
    if from < s.len() {
        assert(s.skip(start)[from - start] == s[from]);
        if s[from] != c {
            lemma_first_index_shift(s, c, start, from + 1);
        }
    }
}

/// A copy of `s`.
pub fn copy_chars(s: &Vec<char>) -> (out: Vec<char>)
    ensures
        out@ == s@,
{
    let mut out: Vec<char> = Vec::new();
    let mut i: usize = 0;
    while i < s.len()
        invariant
            i <= s.len(),
            out@ == s@.take(i as int),
        decreases s.len() - i,
    {
        out.push(s[i]);
        assert(s@.take(i + 1) =~= s@.take(i as int).push(s@[i as int]));
        i += 1;
    }
    assert(s@.take(s@.len() as int) =~= s@);
    out
}

/// `s` with `with` put in place of every occurrence of `pat`. An empty
/// `pat` occurs nowhere.
pub fn replace_all(s: &Vec<char>, pat: &Vec<char>, with: &Vec<char>) -> (out: Vec<char>)
    ensures
        out@ == replaced_all(s@, pat@, with@),
{
    let mut out: Vec<char> = Vec::new();
    let mut i: usize = 0;
    if pat.len() == 0 {
        return copy_chars(s);
    }
    assert(out@ + replaced_all(s@.skip(0), pat@, with@) =~= replaced_all(s@, pat@, with@)) by {
        assert(s@.skip(0) =~= s@);
    }
    while i < s.len()
        invariant
            i <= s.len(),
            pat.len() > 0,
            replaced_all(s@, pat@, with@) == out@ + replaced_all(s@.skip(i as int), pat@, with@),
        decreases s.len() - i,
    {
        let ghost rest = s@.skip(i as int);
        let ghost before = out@;
        if matches_at(s, pat, i) {
            proof {
                assert(rest.subrange(0, pat@.len() as int) =~= s@.subrange(
                    i as int,
                    i + pat@.len(),
                ));
                assert(rest.skip(pat@.len() as int) =~= s@.skip(i + pat@.len()));
            }
            let mut k: usize = 0;
            while k < with.len()
                invariant
                    k <= with.len(),
                    out@ == before + with@.take(k as int),
                decreases with.len() - k,
            {
                out.push(with[k]);
                assert(with@.take(k + 1) =~= with@.take(k as int).push(with@[k as int]));
                assert(before + with@.take(k + 1) =~= (before + with@.take(k as int)).push(
                    with@[k as int],
                ));
                k += 1;
            }
            proof {
                assert(with@.take(with@.len() as int) =~= with@);
                assert(before + (with@ + replaced_all(s@.skip(i + pat@.len()), pat@, with@))
                    =~= out@ + replaced_all(s@.skip(i + pat@.len()), pat@, with@));
            }
            i += pat.len();
        } else {
            proof {
                if i + pat@.len() <= s@.len() {
                    assert(rest.subrange(0, pat@.len() as int) =~= s@.subrange(
                        i as int,
                        i + pat@.len(),
                    ));
                }
                assert(rest.drop_first() =~= s@.skip(i + 1));
                assert(rest[0] == s@[i as int]);
            }
            out.push(s[i]);
            assert(before + (seq![s@[i as int]] + replaced_all(s@.skip(i + 1), pat@, with@))
                =~= out@ + replaced_all(s@.skip(i + 1), pat@, with@));
            i += 1;
        }
    }
    assert(s@.skip(s@.len() as int) =~= Seq::<char>::empty());
    assert(out@ + Seq::<char>::empty() =~= out@);
    out
}

/// Reads the decimal digits `chars[start..]`: at least one digit and
/// nothing else, of a number that fits 64 bits.
fn digits_from(chars: &Vec<char>, start: usize) -> (r: Option<u64>)
    requires
        start <= chars.len(),
    ensures
        r == bounded_digits(chars@.skip(start as int)),
{
    let ghost digits = chars@.skip(start as int);
    if chars.len() == start {
        return None;
    }
    let mut value: u64 = 0;
    let mut i: usize = start;
    assert(digits.take(0) =~= Seq::<char>::empty());
    while i < chars.len()
        invariant
            start <= i <= chars.len(),
            digits.len() > 0,
            digits == chars@.skip(start as int),
            digits_value(digits.take(i - start)) == Some(value as nat),
        decreases chars.len() - i,
    {
        let c = chars[i];
        proof {
            let upto = digits.take(i + 1 - start);
            assert(upto.drop_last() =~= digits.take(i - start));
            assert(upto.last() == c);
        }
        if !('0' <= c && c <= '9') {
            proof {
                lemma_digits_value_prefix(digits, i + 1 - start);
            }
            return None;
        }
        let d: u64 = (c as u32 - '0' as u32) as u64;
        if value > (u64::MAX - d) / 10 {
            proof {
                let upto = digits.take(i + 1 - start);
                assert(digits_value(upto) == Some((value * 10 + d) as nat));
                assert(value * 10 + d > u64::MAX) by (nonlinear_arith)
                    requires
                        value > (u64::MAX - d) / 10,
                        d < 10,
                ;
                lemma_digits_value_grows(digits, i + 1 - start);
            }
            return None;
        }
        assert(value * 10 + d <= u64::MAX) by (nonlinear_arith)
            requires
                value <= (u64::MAX - d) / 10,
                d < 10,
        ;
        value = value * 10 + d;
        i += 1;
    }
    assert(digits.take(digits.len() as int) =~= digits);
    Some(value)
}

/// Reads an unsigned decimal number: an optional plus sign and at least
/// one digit, and nothing else.
pub fn parse_unsigned(s: &str) -> (r: Option<u64>)
    ensures
        r == unsigned_value(s@),
{
    let chars = to_chars(s);
    let start: usize = if chars.len() > 0 && chars[0] == '+' {
        1
    } else {
        0
    };
    proof {
        if start == 0 {
            assert(chars@.skip(0) =~= chars@);
        } else {
            assert(chars@.skip(1) =~= chars@.drop_first());
        }
    }
    digits_from(&chars, start)
}

/// Reads a signed decimal number: an optional sign and at least one
/// digit, and nothing else.
pub fn parse_signed(s: &str) -> (r: Option<i64>)
    ensures
        r == signed_value(s@),
{
    let chars = to_chars(s);
    let negative = chars.len() > 0 && chars[0] == '-';
    let start: usize = if chars.len() > 0 && (chars[0] == '-' || chars[0] == '+') {
        1
    } else {
        0
    };
    proof {
        if start == 0 {
            assert(chars@.skip(0) =~= chars@);
        } else {
            assert(chars@.skip(1) =~= chars@.drop_first());
        }
    }
    match digits_from(&chars, start) {
        Some(n) => if negative {
            if n <= 9223372036854775807 {
                Some(-(n as i64))
            } else if n == 9223372036854775808 {
                Some(i64::MIN)
            } else {
                None
            }
        } else if n <= 9223372036854775807 {
            Some(n as i64)
        } else {
            None
        },
        None => None,
    }
}

/// Where a beginning of `s` spells no number, `s` spells none.
pub proof fn lemma_digits_value_prefix(s: Seq<char>, n: int)
    requires
        0 <= n <= s.len(),
        digits_value(s.take(n)) is None,
    ensures
        digits_value(s) is None,
    decreases s.len() - n,
{
    if n < s.len() {
        assert(s.take(n + 1).drop_last() =~= s.take(n));
        lemma_digits_value_prefix(s, n + 1);
    } else {
        assert(s.take(n) =~= s);
    }
}

/// What `s` spells is no smaller than what a beginning of it spells.
pub proof fn lemma_digits_value_grows(s: Seq<char>, n: int)
    requires
        0 <= n <= s.len(),
        digits_value(s.take(n)) is Some,
    ensures
        digits_value(s) matches Some(whole) ==> whole >= digits_value(s.take(n))->0,
    decreases s.len() - n,
{
    if n < s.len() {
        assert(s.take(n + 1).drop_last() =~= s.take(n));
        if digits_value(s.take(n + 1)) is Some {
            lemma_digits_value_grows(s, n + 1);
        } else {
            lemma_digits_value_prefix(s, n + 1);
        }
    } else {
        assert(s.take(n) =~= s);
    }
}

} // verus!
