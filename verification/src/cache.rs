//! Names of package files in the download cache.
//!
//! A package file is named after its package, its version, its release and
//! its architecture, joined by dashes, followed by one of three archive
//! extensions. A package name may hold dashes itself; the other three
//! parts may not, so a name is read from the right.

use vstd::prelude::*;
use vstd::string::*;

use crate::listing::{add_sizes, clamped_sum};
use crate::events::{complete, complete_view, event_of, log, log_view, StreamEvent, StreamEventView};
use crate::text::{
    concat, decimal, decimal_string, ends_with, has_suffix, signed_decimal, signed_decimal_string,
    slice_to_string, to_chars, trim, trimmed,
};

verus! {

/// The index of the last `c` in `s` before `end`, or -1 where there is
/// none.
pub open spec fn last_index_before(s: Seq<char>, c: char, end: int) -> int
    decreases end,
{
    if end <= 0 || end > s.len() {
        -1
    } else if s[end - 1] == c {
        end - 1
    } else {
        last_index_before(s, c, end - 1)
    }
}

/// A file name without its archive extension, where it has one of the
/// three.
pub open spec fn package_file_base(filename: Seq<char>) -> Option<Seq<char>> {
    if has_suffix(filename, ".pkg.tar.zst"@) {
        Some(filename.take(filename.len() - ".pkg.tar.zst"@.len()))
    } else if has_suffix(filename, ".pkg.tar.xz"@) {
        Some(filename.take(filename.len() - ".pkg.tar.xz"@.len()))
    } else if has_suffix(filename, ".pkg.tar.gz"@) {
        Some(filename.take(filename.len() - ".pkg.tar.gz"@.len()))
    } else {
        None
    }
}

/// The package name and the version with release that a base names: the
/// part before the third dash from the right, and the part between that
/// dash and the last one. A base with fewer than three dashes names
/// nothing.
pub open spec fn package_of_base(base: Seq<char>) -> Option<(Seq<char>, Seq<char>)> {
    let arch_dash = last_index_before(base, '-', base.len() as int);
    let release_dash = last_index_before(base, '-', arch_dash);
    let version_dash = last_index_before(base, '-', release_dash);
    if version_dash < 0 {
        None
    } else {
        Some((base.take(version_dash), base.subrange(version_dash + 1, arch_dash)))
    }
}

/// The package name and the version with release that a file name names.
pub open spec fn package_of_filename(filename: Seq<char>) -> Option<(Seq<char>, Seq<char>)> {
    match package_file_base(filename) {
        Some(base) => package_of_base(base),
        None => None,
    }
}

/// The content of a parsed file name.
pub open spec fn parsed_view(r: Option<(String, String)>) -> Option<(Seq<char>, Seq<char>)> {
    match r {
        Some((name, version)) => Some((name@, version@)),
        None => None,
    }
}

/// The index of the last `c` in `s` before `end`.
pub fn last_index(s: &Vec<char>, c: char, end: usize) -> (r: Option<usize>)
    requires
        end <= s.len(),
    ensures
        match r {
            Some(i) => last_index_before(s@, c, end as int) == i && i < end,
            None => last_index_before(s@, c, end as int) == -1,
        },
{
    let mut i: usize = end;
    while i > 0
        invariant
            i <= end <= s.len(),
            last_index_before(s@, c, end as int) == last_index_before(s@, c, i as int),
        decreases i,
    {
        if s[i - 1] == c {
            return Some(i - 1);
        }
        i -= 1;
    }
    None
}

/// The length of `filename` without its archive extension, where it has
/// one of the three.
fn base_len(filename: &Vec<char>) -> (r: Option<usize>)
    ensures
        match r {
            Some(n) => n <= filename.len() && package_file_base(filename@) == Some(
                filename@.take(n as int),
            ),
            None => package_file_base(filename@) is None,
        },
{
    let zst = to_chars(".pkg.tar.zst");
    let xz = to_chars(".pkg.tar.xz");
    let gz = to_chars(".pkg.tar.gz");
    if ends_with(filename, &zst) {
        Some(filename.len() - zst.len())
    } else if ends_with(filename, &xz) {
        Some(filename.len() - xz.len())
    } else if ends_with(filename, &gz) {
        Some(filename.len() - gz.len())
    } else {
        None
    }
}

/// Reads the package name and the version with release from the name of a
/// package file. A name without one of the three archive extensions, or
/// with fewer than three dashes before it, gives nothing.
pub fn parse_package_filename(filename: &str) -> (r: Option<(String, String)>)
    ensures
        parsed_view(r) == package_of_filename(filename@),
{
    let chars = to_chars(filename);
    let n = match base_len(&chars) {
        Some(n) => n,
        None => {
            return None;
        },
    };
    let ghost base = chars@.take(n as int);
    proof {
        lemma_last_index_of_prefix(chars@, '-', n as int, n as int);
    }
    let arch_dash = match last_index(&chars, '-', n) {
        Some(i) => i,
        None => {
            return None;
        },
    };
    proof {
        lemma_last_index_of_prefix(chars@, '-', n as int, arch_dash as int);
    }
    let release_dash = match last_index(&chars, '-', arch_dash) {
        Some(i) => i,
        None => {
            return None;
        },
    };
    proof {
        lemma_last_index_of_prefix(chars@, '-', n as int, release_dash as int);
    }
    let version_dash = match last_index(&chars, '-', release_dash) {
        Some(i) => i,
        None => {
            return None;
        },
    };
    let name = slice_to_string(&chars, 0, version_dash);
    let version = slice_to_string(&chars, version_dash + 1, arch_dash);
    proof {
        assert(base.take(version_dash as int) =~= chars@.subrange(0, version_dash as int));
        assert(base.subrange(version_dash + 1, arch_dash as int) =~= chars@.subrange(
            version_dash + 1,
            arch_dash as int,
        ));
    }
    Some((name, version))
}

/// Looking for a character before `end` finds the same in a text and in
/// any prefix of it that reaches `end`.
pub proof fn lemma_last_index_of_prefix(s: Seq<char>, c: char, n: int, end: int)
    requires
        0 <= end <= n <= s.len(),
    ensures
        last_index_before(s.take(n), c, end) == last_index_before(s, c, end),
    decreases end,
{
    if end > 0 && s[end - 1] != c {
        lemma_last_index_of_prefix(s, c, n, end - 1);
    }
}

/// A file of the cache: its name and its size in bytes.
#[derive(Debug, Clone, PartialEq, Eq)]
pub struct CacheFile {
    pub filename: String,
    pub size: i64,
}

/// A package file of the cache as the caller is told of it.
#[derive(Debug, Clone, PartialEq, Eq)]
pub struct CachePackage {
    pub name: String,
    pub version: String,
    pub filename: String,
    pub size: i64,
}

/// The cache as the caller is told of it.
#[derive(Debug, Clone, PartialEq, Eq)]
pub struct CacheInfo {
    pub total_size: i64,
    pub package_count: usize,
    pub packages: Vec<CachePackage>,
    pub path: String,
}

/// Whether a file name has one of the three archive extensions: what
/// stands behind its last dot is `zst`, `xz` or `gz`, and that dot does not
/// begin the name.
pub open spec fn is_archive(filename: Seq<char>) -> bool {
    let dot = last_index_before(filename, '.', filename.len() as int);
    &&& dot > 0
    &&& (filename.skip(dot + 1) == "zst"@ || filename.skip(dot + 1) == "xz"@ || filename.skip(
        dot + 1,
    ) == "gz"@)
}

/// The size of the archives among the files together, each sum kept
/// within bounds.
pub open spec fn archive_size(files: Seq<CacheFile>) -> i64
    decreases files.len(),
{
    if files.len() == 0 {
        0
    } else {
        let before = archive_size(files.drop_last());
        if is_archive(files.last().filename@) {
            clamped_sum(before, files.last().size)
        } else {
            before
        }
    }
}

/// What the caller is told of a package file: the package and version
/// that its name names, the name, and the size.
pub struct CachePackageView {
    pub name: Seq<char>,
    pub version: Seq<char>,
    pub filename: Seq<char>,
    pub size: i64,
}

impl View for CachePackage {
    type V = CachePackageView;

    open spec fn view(&self) -> CachePackageView {
        CachePackageView {
            name: self.name@,
            version: self.version@,
            filename: self.filename@,
            size: self.size,
        }
    }
}

/// The contents of a list of package files, element by element.
pub open spec fn cache_views(v: Seq<CachePackage>) -> Seq<CachePackageView> {
    Seq::new(v.len(), |i: int| v[i]@)
}

/// The package files among the files, in the order given: the archives
/// whose names name a package.
pub open spec fn cached_packages(files: Seq<CacheFile>) -> Seq<CachePackageView>
    decreases files.len(),
{
    if files.len() == 0 {
        Seq::empty()
    } else {
        let before = cached_packages(files.drop_last());
        let f = files.last();
        match package_of_filename(f.filename@) {
            Some((name, version)) => if is_archive(f.filename@) {
                before.push(
                    CachePackageView { name, version, filename: f.filename@, size: f.size },
                )
            } else {
                before
            },
            None => before,
        }
    }
}

/// Whether the file name `filename` has one of the three archive
/// extensions.
pub fn has_archive_extension(filename: &str) -> (r: bool)
    ensures
        r == is_archive(filename@),
{
    let chars = to_chars(filename);
    match last_index(&chars, '.', chars.len()) {
        Some(dot) => {
            if dot == 0 {
                return false;
            }
            let ext = slice_to_string(&chars, dot + 1, chars.len());
            assert(chars@.skip(dot + 1) =~= chars@.subrange(dot + 1, chars@.len() as int));
            crate::config::same_text(ext.as_str(), "zst") || crate::config::same_text(
                ext.as_str(),
                "xz",
            ) || crate::config::same_text(ext.as_str(), "gz")
        },
        None => false,
    }
}

/// What the caller is told of the cache at `path`, from its files: the
/// size of all archives together, and the archives that are package
/// files, in the order given.
pub fn get_cache_info(files: &Vec<CacheFile>, path: &str) -> (info: CacheInfo)
    ensures
        info.total_size == archive_size(files@),
        cache_views(info.packages@) == cached_packages(files@),
        info.package_count == info.packages@.len(),
        info.path@ == path@,
{
    let mut packages: Vec<CachePackage> = Vec::new();
    let mut total_size: i64 = 0;
    let mut i: usize = 0;
    assert(files@.take(0) =~= Seq::<CacheFile>::empty());
    assert(cache_views(packages@) =~= Seq::<CachePackageView>::empty());
    while i < files.len()
        invariant
            i <= files.len(),
            total_size == archive_size(files@.take(i as int)),
            cache_views(packages@) == cached_packages(files@.take(i as int)),
        decreases files.len() - i,
    {
        let f = &files[i];
        proof {
            let next = files@.take(i + 1);
            assert(next.drop_last() =~= files@.take(i as int));
            assert(next.last() == files@[i as int]);
        }
        if has_archive_extension(f.filename.as_str()) {
            total_size = add_sizes(total_size, f.size);
            match parse_package_filename(f.filename.as_str()) {
                Some((name, version)) => {
                    let ghost before = cache_views(packages@);
                    let entry = CachePackage {
                        name,
                        version,
                        filename: f.filename.clone(),
                        size: f.size,
                    };
                    packages.push(entry);
                    assert(cache_views(packages@) =~= before.push(entry@));
                },
                None => {},
            }
        }
        i += 1;
    }
    assert(files@.take(files@.len() as int) =~= files@);
    CacheInfo {
        total_size,
        package_count: packages.len(),
        packages,
        path: String::from_str(path),
    }
}

/// The option that tells the cleaner how many versions to keep.
pub fn keep_option(keep_versions: u32) -> (arg: String)
    ensures
        arg@ == "-k"@ + decimal(keep_versions as nat),
{
    let n = decimal_string(keep_versions as u64);
    concat("-k", n.as_str())
}

/// The record that opens a cleanup.
pub fn cleanup_started() -> (e: StreamEvent)
    ensures
        e@ == (StreamEventView::Event { event: "Starting cache cleanup"@, package: None }),
{
    StreamEvent::Event { event: String::from_str("Starting cache cleanup"), package: None }
}

/// The record for a line that the cleaner wrote: a line that holds more
/// than white space is logged as it is.
pub fn cleanup_line(line: &str) -> (e: Option<StreamEvent>)
    ensures
        event_of(e) == (if trimmed(line@).len() == 0 {
            None
        } else {
            Some(log_view("info"@, line@))
        }),
{
    let stripped = trim(line);
    if stripped.as_str().is_empty() {
        None
    } else {
        Some(log("info", String::from_str(line)))
    }
}

/// The terminal record of a cleanup, from how the cleaner ended.
pub fn clean_cache(success: bool, code: Option<i32>) -> (e: StreamEvent)
    ensures
        e@ == (if success {
            complete_view(true, "Cache cleanup completed"@)
        } else {
            complete_view(
                false,
                "paccache failed with exit code "@ + signed_decimal(
                    match code {
                        Some(c) => c as int,
                        None => -1,
                    },
                ),
            )
        }),
{
    if success {
        complete(true, String::from_str("Cache cleanup completed"))
    } else {
        let shown: i64 = match code {
            Some(c) => c as i64,
            None => -1,
        };
        let digits = signed_decimal_string(shown);
        complete(false, concat("paccache failed with exit code ", digits.as_str()))
    }
}

} // verus!
