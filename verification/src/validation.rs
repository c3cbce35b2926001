//! Checks on what the caller hands in, made before anything is asked of the
//! engine. Each check either accepts its input or rejects it with a text
//! that names the first rule broken; which of the two, and which text, is
//! stated exactly.

use vstd::prelude::*;
use vstd::string::*;
use vstd::utf8::encode_utf8;

use crate::config::same_text;
use crate::text::{
    byte_len, concat3, contains, contains_char, decimal, decimal_string, has_prefix,
    is_ascii_alphanumeric, is_ascii_alphanumeric_char, is_control, is_control_char, occurs_in,
    remove_all, starts_with, to_chars, without_all,
};

verus! {

/// The most bytes a payload of JSON may have: one mebibyte.
pub const MAX_JSON_PAYLOAD_BYTES: usize = 1048576;

/// The content of a verdict.
pub open spec fn verdict_of(r: Result<(), String>) -> Result<(), Seq<char>> {
    match r {
        Ok(()) => Ok(()),
        Err(text) => Err(text@),
    }
}

/// Whether some character of `s` is a control code.
pub open spec fn has_control(s: Seq<char>) -> bool {
    exists|i: int| 0 <= i < s.len() && is_control_char(#[trigger] s[i])
}

/// Whether some character of `s` satisfies none of the rules for a
/// calendar expression.
pub open spec fn has_foreign(s: Seq<char>) -> bool {
    exists|i: int| 0 <= i < s.len() && !calendar_char(#[trigger] s[i])
}

/// Whether some character of `s` is one that a shell or a markup reads as
/// more than text.
pub open spec fn has_dangerous(s: Seq<char>) -> bool {
    exists|i: int| 0 <= i < s.len() && dangerous_char(#[trigger] s[i])
}

/// The characters of a calendar expression: letters, digits, and the
/// punctuation of dates, times, lists, ranges and repetitions.
pub open spec fn calendar_char(c: char) -> bool {
    ||| is_ascii_alphanumeric_char(c)
    ||| c == ' '
    ||| c == '-'
    ||| c == ':'
    ||| c == '*'
    ||| c == ','
    ||| c == '/'
    ||| c == '.'
    ||| c == '~'
}

/// The characters that a mirror URL may not hold.
pub open spec fn dangerous_char(c: char) -> bool {
    ||| c == '<'
    ||| c == '>'
    ||| c == '"'
    ||| c == '\''
    ||| c == '`'
    ||| c == '|'
    ||| c == ';'
    ||| c == '&'
    ||| c == '\\'
    ||| c == '\n'
    ||| c == '\r'
}

/// The length of a text in bytes.
pub open spec fn bytes_of(s: Seq<char>) -> nat {
    encode_utf8(s).len()
}

/// The verdict on a package name.
pub open spec fn package_name_verdict(name: Seq<char>) -> Result<(), Seq<char>> {
    if name.len() == 0 {
        Err("Package name cannot be empty"@)
    } else if bytes_of(name) > 256 {
        Err("Package name too long (max 256)"@)
    } else {
        Ok(())
    }
}

/// The verdict on a search query.
pub open spec fn search_query_verdict(query: Seq<char>) -> Result<(), Seq<char>> {
    if query.len() == 0 {
        Err("Search query cannot be empty"@)
    } else if bytes_of(query) > 256 {
        Err("Search query too long (max 256)"@)
    } else if has_control(query) {
        Err("Search query contains invalid characters"@)
    } else {
        Ok(())
    }
}

/// The verdict on a page of a listing.
pub open spec fn pagination_verdict(offset: usize, limit: usize) -> Result<(), Seq<char>> {
    if limit == 0 || limit > 1000 {
        Err("Limit must be between 1 and 1000"@)
    } else if offset > 1000000 {
        Err("Offset too large"@)
    } else {
        Ok(())
    }
}

/// The verdict on a package version.
pub open spec fn version_verdict(version: Seq<char>) -> Result<(), Seq<char>> {
    if version.len() == 0 {
        Err("Version cannot be empty"@)
    } else if bytes_of(version) > 128 {
        Err("Version string too long (max 128)"@)
    } else if occurs_in(version, ".."@) || version.contains('/') || version.contains('\\') {
        Err("Version contains invalid path characters"@)
    } else if has_control(version) {
        Err("Version contains invalid control characters"@)
    } else {
        Ok(())
    }
}

/// The verdict on a number of versions to keep.
pub open spec fn keep_versions_verdict(keep: u32) -> Result<(), Seq<char>> {
    if keep > 100 {
        Err("Keep versions must be at most 100 (got "@ + decimal(keep as nat) + ")"@)
    } else {
        Ok(())
    }
}

/// Whether `s` is one of the named schedules.
pub open spec fn is_preset(s: Seq<char>) -> bool {
    ||| s == "hourly"@
    ||| s == "daily"@
    ||| s == "weekly"@
    ||| s == "monthly"@
    ||| s == "yearly"@
    ||| s == "quarterly"@
}

/// The verdict on a schedule.
pub open spec fn schedule_verdict(schedule: Seq<char>) -> Result<(), Seq<char>> {
    if schedule.len() == 0 {
        Err("Schedule cannot be empty"@)
    } else if bytes_of(schedule) > 256 {
        Err("Schedule string too long (max 256)"@)
    } else if has_control(schedule) {
        Err("Schedule contains invalid control characters"@)
    } else if schedule.contains('[') || schedule.contains(']') || schedule.contains('=') {
        Err("Schedule contains invalid characters"@)
    } else if is_preset(schedule) {
        Ok(())
    } else if has_foreign(schedule) {
        Err("Schedule contains invalid characters for OnCalendar format"@)
    } else {
        Ok(())
    }
}

/// The verdict on a limit of packages.
pub open spec fn max_packages_verdict(max: usize) -> Result<(), Seq<char>> {
    if max > 1000 {
        Err("max_packages must be at most 1000 (got "@ + decimal(max as nat) + ")"@)
    } else {
        Ok(())
    }
}

/// Whether a URL uses the dollar sign for anything but the two
/// placeholders: what is left when every `$repo` and then every `$arch` is
/// taken out still holds one.
pub open spec fn stray_dollar(url: Seq<char>) -> bool {
    without_all(without_all(url, "$repo"@), "$arch"@).contains('$')
}

/// The verdict on a mirror URL.
pub open spec fn mirror_url_verdict(url: Seq<char>) -> Result<(), Seq<char>> {
    if url.len() == 0 {
        Err("Mirror URL cannot be empty"@)
    } else if bytes_of(url) > 2048 {
        Err("Mirror URL too long (max 2048)"@)
    } else if has_control(url) {
        Err("Mirror URL contains invalid control characters"@)
    } else if !has_prefix(url, "https://"@) && !has_prefix(url, "http://"@) {
        Err("Mirror URL must start with https:// or http://"@)
    } else if occurs_in(url, ".."@) || occurs_in(url, "//./"@) || occurs_in(url, "/../"@) {
        Err("Mirror URL contains suspicious path traversal"@)
    } else if has_dangerous(url) {
        Err("Mirror URL contains potentially dangerous characters"@)
    } else if url.contains('$') && stray_dollar(url) {
        Err("Mirror URL contains invalid $ usage (only $repo and $arch allowed)"@)
    } else {
        Ok(())
    }
}

/// The verdict on the seconds allowed for a mirror test.
pub open spec fn mirror_timeout_verdict(timeout: u64) -> Result<(), Seq<char>> {
    if timeout == 0 || timeout > 300 {
        Err(
            "Mirror timeout must be between 1 and 300 seconds (got "@ + decimal(timeout as nat)
                + ")"@,
        )
    } else {
        Ok(())
    }
}

/// The verdict on the depth of a dependency tree.
pub open spec fn depth_verdict(depth: u32) -> Result<(), Seq<char>> {
    if depth == 0 || depth > 5 {
        Err("Depth must be between 1 and 5 (got "@ + decimal(depth as nat) + ")"@)
    } else {
        Ok(())
    }
}

/// The verdict on the direction of a dependency tree.
pub open spec fn direction_verdict(direction: Seq<char>) -> Result<(), Seq<char>> {
    if direction == "forward"@ || direction == "reverse"@ || direction == "both"@ {
        Ok(())
    } else {
        Err("Direction must be 'forward', 'reverse', or 'both' (got '"@ + direction + "')"@)
    }
}

/// The verdict on a payload of `bytes` bytes.
pub open spec fn payload_size_verdict(bytes: nat) -> Result<(), Seq<char>> {
    if bytes > MAX_JSON_PAYLOAD_BYTES {
        Err(
            "JSON payload too large ("@ + decimal(bytes) + " bytes, max "@ + decimal(
                MAX_JSON_PAYLOAD_BYTES as nat,
            ) + ")"@,
        )
    } else {
        Ok(())
    }
}

/// A rejection with the text `text`.
fn reject(text: &str) -> (r: Result<(), String>)
    ensures
        verdict_of(r) == Err::<(), Seq<char>>(text@),
{
    Err(String::from_str(text))
}

/// A rejection that names the offending number.
fn reject_number(before: &str, n: u64, after: &str) -> (r: Result<(), String>)
    ensures
        verdict_of(r) == Err::<(), Seq<char>>(before@ + decimal(n as nat) + after@),
{
    let digits = decimal_string(n);
    Err(concat3(before, digits.as_str(), after))
}

/// Whether some character of `s` is a control code.
pub fn any_control(s: &Vec<char>) -> (r: bool)
    ensures
        r == has_control(s@),
{
    let mut i: usize = 0;
    while i < s.len()
        invariant
            i <= s.len(),
            forall|j: int| 0 <= j < i ==> !is_control_char(#[trigger] s@[j]),
        decreases s.len() - i,
    {
        if is_control(s[i]) {
            return true;
        }
        i += 1;
    }
    false
}

/// Whether `c` may stand in a calendar expression.
fn calendar(c: char) -> (r: bool)
    ensures
        r == calendar_char(c),
{
    is_ascii_alphanumeric(c) || c == ' ' || c == '-' || c == ':' || c == '*' || c == ',' || c
        == '/' || c == '.' || c == '~'
}

/// Whether `c` may not stand in a mirror URL.
fn dangerous(c: char) -> (r: bool)
    ensures
        r == dangerous_char(c),
{
    c == '<' || c == '>' || c == '"' || c == '\'' || c == '`' || c == '|' || c == ';' || c == '&'
        || c == '\\' || c == '\n' || c == '\r'
}

/// Whether some character of `s` may not stand in a calendar expression.
fn any_foreign(s: &Vec<char>) -> (r: bool)
    ensures
        r == has_foreign(s@),
{
    let mut i: usize = 0;
    while i < s.len()
        invariant
            i <= s.len(),
            forall|j: int| 0 <= j < i ==> calendar_char(#[trigger] s@[j]),
        decreases s.len() - i,
    {
        if !calendar(s[i]) {
            return true;
        }
        i += 1;
    }
    false
}

/// Whether some character of `s` may not stand in a mirror URL.
fn any_dangerous(s: &Vec<char>) -> (r: bool)
    ensures
        r == has_dangerous(s@),
{
    let mut i: usize = 0;
    while i < s.len()
        invariant
            i <= s.len(),
            forall|j: int| 0 <= j < i ==> !dangerous_char(#[trigger] s@[j]),
        decreases s.len() - i,
    {
        if dangerous(s[i]) {
            return true;
        }
        i += 1;
    }
    false
}

/// Whether `hay` holds the text `needle`.
fn holds(hay: &Vec<char>, needle: &str) -> (r: bool)
    ensures
        r == occurs_in(hay@, needle@),
{
    let n = to_chars(needle);
    contains(hay, &n)
}

/// Accepts a package name that is not empty and has at most 256 bytes.
pub fn validate_package_name(name: &str) -> (r: Result<(), String>)
    ensures
        verdict_of(r) == package_name_verdict(name@),
{
    if name.is_empty() {
        return reject("Package name cannot be empty");
    }
    if byte_len(name) > 256 {
        return reject("Package name too long (max 256)");
    }
    Ok(())
}

/// Accepts a search query that is not empty, has at most 256 bytes and
/// holds no control code.
pub fn validate_search_query(query: &str) -> (r: Result<(), String>)
    ensures
        verdict_of(r) == search_query_verdict(query@),
{
    if query.is_empty() {
        return reject("Search query cannot be empty");
    }
    if byte_len(query) > 256 {
        return reject("Search query too long (max 256)");
    }
    let chars = to_chars(query);
    if any_control(&chars) {
        return reject("Search query contains invalid characters");
    }
    Ok(())
}

/// Accepts a page of 1 to 1000 entries that starts at most a million
/// entries in.
pub fn validate_pagination(offset: usize, limit: usize) -> (r: Result<(), String>)
    ensures
        verdict_of(r) == pagination_verdict(offset, limit),
{
    if limit == 0 || limit > 1000 {
        return reject("Limit must be between 1 and 1000");
    }
    if offset > 1000000 {
        return reject("Offset too large");
    }
    Ok(())
}

/// Accepts a version that is not empty, has at most 128 bytes, and holds
/// nothing that a path would read as a step, and no control code.
pub fn validate_version(version: &str) -> (r: Result<(), String>)
    ensures
        verdict_of(r) == version_verdict(version@),
{
    if version.is_empty() {
        return reject("Version cannot be empty");
    }
    if byte_len(version) > 128 {
        return reject("Version string too long (max 128)");
    }
    let chars = to_chars(version);
    if holds(&chars, "..") || contains_char(&chars, '/') || contains_char(&chars, '\\') {
        return reject("Version contains invalid path characters");
    }
    if any_control(&chars) {
        return reject("Version contains invalid control characters");
    }
    Ok(())
}

/// Accepts at most 100 versions to keep.
pub fn validate_keep_versions(keep: u32) -> (r: Result<(), String>)
    ensures
        verdict_of(r) == keep_versions_verdict(keep),
{
    if keep > 100 {
        return reject_number("Keep versions must be at most 100 (got ", keep as u64, ")");
    }
    Ok(())
}

/// Whether `s` is one of the named schedules.
fn preset(s: &str) -> (r: bool)
    ensures
        r == is_preset(s@),
{
    same_text(s, "hourly") || same_text(s, "daily") || same_text(s, "weekly") || same_text(
        s,
        "monthly",
    ) || same_text(s, "yearly") || same_text(s, "quarterly")
}

/// Accepts a schedule that is not empty, has at most 256 bytes, holds no
/// control code and none of the characters that begin a section or an
/// assignment in a unit file, and is either a named schedule or made of
/// the characters of a calendar expression.
pub fn validate_schedule(schedule: &str) -> (r: Result<(), String>)
    ensures
        verdict_of(r) == schedule_verdict(schedule@),
{
    if schedule.is_empty() {
        return reject("Schedule cannot be empty");
    }
    if byte_len(schedule) > 256 {
        return reject("Schedule string too long (max 256)");
    }
    let chars = to_chars(schedule);
    if any_control(&chars) {
        return reject("Schedule contains invalid control characters");
    }
    if contains_char(&chars, '[') || contains_char(&chars, ']') || contains_char(&chars, '=') {
        return reject("Schedule contains invalid characters");
    }
    if preset(schedule) {
        return Ok(());
    }
    if any_foreign(&chars) {
        return reject("Schedule contains invalid characters for OnCalendar format");
    }
    Ok(())
}

/// Accepts a limit of at most 1000 packages.
pub fn validate_max_packages(max: usize) -> (r: Result<(), String>)
    ensures
        verdict_of(r) == max_packages_verdict(max),
{
    if max > 1000 {
        return reject_number("max_packages must be at most 1000 (got ", max as u64, ")");
    }
    Ok(())
}

/// Accepts a mirror URL that is not empty, has at most 2048 bytes, holds
/// no control code, begins with `https://` or `http://`, steps through no
/// parent directory, holds no character that a shell or a markup reads as
/// more than text, and uses the dollar sign for `$repo` and `$arch` only.
pub fn validate_mirror_url(url: &str) -> (r: Result<(), String>)
    ensures
        verdict_of(r) == mirror_url_verdict(url@),
{
    if url.is_empty() {
        return reject("Mirror URL cannot be empty");
    }
    if byte_len(url) > 2048 {
        return reject("Mirror URL too long (max 2048)");
    }
    let chars = to_chars(url);
    if any_control(&chars) {
        return reject("Mirror URL contains invalid control characters");
    }
    let https = to_chars("https://");
    let http = to_chars("http://");
    if !starts_with(&chars, &https) && !starts_with(&chars, &http) {
        return reject("Mirror URL must start with https:// or http://");
    }
    if holds(&chars, "..") || holds(&chars, "//./") || holds(&chars, "/../") {
        return reject("Mirror URL contains suspicious path traversal");
    }
    if any_dangerous(&chars) {
        return reject("Mirror URL contains potentially dangerous characters");
    }
    if contains_char(&chars, '$') {
        let repo = to_chars("$repo");
        let arch = to_chars("$arch");
        let without_repo = remove_all(&chars, &repo);
        let without_both = remove_all(&without_repo, &arch);
        if contains_char(&without_both, '$') {
            return reject("Mirror URL contains invalid $ usage (only $repo and $arch allowed)");
        }
    }
    Ok(())
}

/// Accepts 1 to 300 seconds for a mirror test.
pub fn validate_mirror_timeout(timeout: u64) -> (r: Result<(), String>)
    ensures
        verdict_of(r) == mirror_timeout_verdict(timeout),
{
    if timeout == 0 || timeout > 300 {
        return reject_number(
            "Mirror timeout must be between 1 and 300 seconds (got ",
            timeout,
            ")",
        );
    }
    Ok(())
}

/// Accepts a depth of 1 to 5.
pub fn validate_depth(depth: u32) -> (r: Result<(), String>)
    ensures
        verdict_of(r) == depth_verdict(depth),
{
    if depth == 0 || depth > 5 {
        return reject_number("Depth must be between 1 and 5 (got ", depth as u64, ")");
    }
    Ok(())
}

/// Accepts the directions `forward`, `reverse` and `both`, in exactly this
/// spelling.
pub fn validate_direction(direction: &str) -> (r: Result<(), String>)
    ensures
        verdict_of(r) == direction_verdict(direction@),
{
    if same_text(direction, "forward") || same_text(direction, "reverse") || same_text(
        direction,
        "both",
    ) {
        Ok(())
    } else {
        Err(concat3("Direction must be 'forward', 'reverse', or 'both' (got '", direction, "')"))
    }
}

/// Accepts a payload of at most one mebibyte.
pub fn validate_json_payload_size(payload: &str) -> (r: Result<(), String>)
    ensures
        verdict_of(r) == payload_size_verdict(bytes_of(payload@)),
{
    let n = byte_len(payload);
    if n > MAX_JSON_PAYLOAD_BYTES {
        let size = decimal_string(n as u64);
        let limit = decimal_string(MAX_JSON_PAYLOAD_BYTES as u64);
        let mut text = concat3("JSON payload too large (", size.as_str(), " bytes, max ");
        text.append(limit.as_str());
        text.append(")");
        return Err(text);
    }
    Ok(())
}

} // verus!
