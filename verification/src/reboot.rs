//! Whether the system should be restarted.
//!
//! A restart is due where the running kernel is not the installed one, or
//! where a package that only takes effect at boot was installed after the
//! system came up. The running kernel reports its version in another
//! spelling than the package database, so the two are brought to one.

use vstd::prelude::*;
use vstd::string::*;

use crate::config::same_text;
use crate::events::text_of;
use crate::text::{
    contains, ends_with, find_char_from, first_index_from, from_chars, has_suffix, occurs_in,
    slice_to_string, to_chars, views,
};

verus! {

/// The kernel package that a running kernel of the given version belongs
/// to, where the version names one.
pub open spec fn kernel_package_of(running_kernel: Seq<char>) -> Option<Seq<char>> {
    if has_suffix(running_kernel, "-lts"@) {
        Some("linux-lts"@)
    } else if has_suffix(running_kernel, "-zen"@) {
        Some("linux-zen"@)
    } else if has_suffix(running_kernel, "-hardened"@) {
        Some("linux-hardened"@)
    } else if occurs_in(running_kernel, "-arch"@) {
        Some("linux"@)
    } else {
        None
    }
}

/// The content of an optional static text.
pub open spec fn name_of(s: Option<&'static str>) -> Option<Seq<char>> {
    match s {
        Some(t) => Some(t@),
        None => None,
    }
}

/// `s` with its first dash turned into a dot.
pub open spec fn first_dash_dotted(s: Seq<char>) -> Seq<char> {
    let at = first_index_from(s, '-', 0);
    if at >= 0 {
        s.update(at, '.')
    } else {
        s
    }
}

/// `s` without the suffix `suffix`, where it has it.
pub open spec fn without_suffix(s: Seq<char>, suffix: Seq<char>) -> Seq<char> {
    if has_suffix(s, suffix) {
        s.take(s.len() - suffix.len())
    } else {
        s
    }
}

/// The version of the running kernel in the spelling of the package
/// database, for a kernel of the given package.
pub open spec fn normalized_version(uname_version: Seq<char>, kernel_type: Seq<char>) -> Seq<char> {
    if kernel_type == "linux-lts"@ {
        without_suffix(uname_version, "-lts"@)
    } else if kernel_type == "linux-zen"@ {
        first_dash_dotted(without_suffix(uname_version, "-zen"@))
    } else if kernel_type == "linux-hardened"@ {
        first_dash_dotted(without_suffix(uname_version, "-hardened"@))
    } else {
        first_dash_dotted(uname_version)
    }
}

/// Tells from the version of the running kernel which kernel package it
/// belongs to.
pub fn detect_kernel_package(running_kernel: &str) -> (r: Option<&'static str>)
    ensures
        name_of(r) == kernel_package_of(running_kernel@),
{
    let chars = to_chars(running_kernel);
    let lts = to_chars("-lts");
    let zen = to_chars("-zen");
    let hardened = to_chars("-hardened");
    let arch = to_chars("-arch");
    if ends_with(&chars, &lts) {
        Some("linux-lts")
    } else if ends_with(&chars, &zen) {
        Some("linux-zen")
    } else if ends_with(&chars, &hardened) {
        Some("linux-hardened")
    } else if contains(&chars, &arch) {
        Some("linux")
    } else {
        None
    }
}

/// The characters `chars[..end]` with the first dash among them turned
/// into a dot.
fn dotted_prefix(chars: &Vec<char>, end: usize) -> (out: String)
    requires
        end <= chars.len(),
    ensures
        out@ == first_dash_dotted(chars@.take(end as int)),
{
    let mut copy: Vec<char> = Vec::new();
    let mut i: usize = 0;
    while i < end
        invariant
            i <= end <= chars.len(),
            copy@ == chars@.take(i as int),
        decreases end - i,
    {
        copy.push(chars[i]);
        assert(chars@.take(i + 1) =~= chars@.take(i as int).push(chars@[i as int]));
        i += 1;
    }
    match find_char_from(&copy, '-', 0) {
        Some(at) => {
            copy.set(at, '.');
        },
        None => {},
    }
    from_chars(&copy)
}

/// Turns the first dash of `s` into a dot.
pub fn replace_first_dash_after_version(s: &str) -> (out: String)
    ensures
        out@ == first_dash_dotted(s@),
{
    let chars = to_chars(s);
    assert(chars@.take(chars@.len() as int) =~= chars@);
    dotted_prefix(&chars, chars.len())
}

/// The length of `chars` without `suffix`, where it ends with it.
fn len_without(chars: &Vec<char>, suffix: &str) -> (n: usize)
    ensures
        n <= chars.len(),
        chars@.take(n as int) == without_suffix(chars@, suffix@),
{
    let tail = to_chars(suffix);
    if ends_with(chars, &tail) {
        chars.len() - tail.len()
    } else {
        assert(chars@.take(chars@.len() as int) =~= chars@);
        chars.len()
    }
}

/// Brings the version that the running kernel reports to the spelling of
/// the package database, for a kernel of the package `kernel_type`.
pub fn normalize_uname_to_alpm(uname_version: &str, kernel_type: &str) -> (out: String)
    ensures
        out@ == normalized_version(uname_version@, kernel_type@),
{
    let chars = to_chars(uname_version);
    if same_text(kernel_type, "linux-lts") {
        let n = len_without(&chars, "-lts");
        let out = slice_to_string(&chars, 0, n);
        assert(chars@.subrange(0, n as int) =~= chars@.take(n as int));
        out
    } else if same_text(kernel_type, "linux-zen") {
        let n = len_without(&chars, "-zen");
        dotted_prefix(&chars, n)
    } else if same_text(kernel_type, "linux-hardened") {
        let n = len_without(&chars, "-hardened");
        dotted_prefix(&chars, n)
    } else {
        assert(chars@.take(chars@.len() as int) =~= chars@);
        dotted_prefix(&chars, chars.len())
    }
}

/// What the caller is told about a restart.
#[derive(Debug, Clone, PartialEq, Eq)]
pub struct RebootStatus {
    pub requires_reboot: bool,
    pub reason: String,
    pub running_kernel: Option<String>,
    pub installed_kernel: Option<String>,
    pub kernel_package: Option<String>,
    pub updated_packages: Vec<String>,
}

/// The mathematical content of a [`RebootStatus`].
pub struct RebootStatusView {
    pub requires_reboot: bool,
    pub reason: Seq<char>,
    pub running_kernel: Option<Seq<char>>,
    pub installed_kernel: Option<Seq<char>>,
    pub kernel_package: Option<Seq<char>>,
    pub updated_packages: Seq<Seq<char>>,
}

impl View for RebootStatus {
    type V = RebootStatusView;

    open spec fn view(&self) -> RebootStatusView {
        RebootStatusView {
            requires_reboot: self.requires_reboot,
            reason: self.reason@,
            running_kernel: text_of(self.running_kernel),
            installed_kernel: text_of(self.installed_kernel),
            kernel_package: text_of(self.kernel_package),
            updated_packages: views(self.updated_packages@),
        }
    }
}

/// A package that takes effect only at boot, with the time it was
/// installed, where it is installed and the time is known.
#[derive(Debug, Clone, PartialEq, Eq)]
pub struct CriticalPackage {
    pub name: String,
    pub install_date: Option<i64>,
}

/// The names of the critical packages installed after `boot_time`, in the
/// order given.
pub open spec fn installed_since(packages: Seq<CriticalPackage>, boot_time: i64) -> Seq<Seq<char>>
    decreases packages.len(),
{
    if packages.len() == 0 {
        Seq::empty()
    } else {
        let rest = installed_since(packages.drop_last(), boot_time);
        match packages.last().install_date {
            Some(date) => if date > boot_time {
                rest.push(packages.last().name@)
            } else {
                rest
            },
            None => rest,
        }
    }
}

/// Whether the installed kernel is another than the running one.
pub open spec fn kernel_changed(running_kernel: Seq<char>, installed_kernel: Option<Seq<char>>) -> bool {
    match (kernel_package_of(running_kernel), installed_kernel) {
        (Some(package), Some(installed)) => installed != normalized_version(
            running_kernel,
            package,
        ),
        _ => false,
    }
}

/// The verdict on a restart. The kernel is looked at first: where the
/// running kernel belongs to a known package and that package is installed
/// in another version, a restart is due for the kernel and the critical
/// packages are not looked at. Else a restart is due where a critical
/// package was installed after the system came up.
pub open spec fn reboot_verdict(
    running_kernel: Seq<char>,
    installed_kernel: Option<Seq<char>>,
    critical: Seq<CriticalPackage>,
    boot_time: i64,
) -> RebootStatusView {
    let package = kernel_package_of(running_kernel);
    let known = package is Some && installed_kernel is Some;
    let updated = if kernel_changed(running_kernel, installed_kernel) {
        Seq::empty()
    } else {
        installed_since(critical, boot_time)
    };
    RebootStatusView {
        requires_reboot: kernel_changed(running_kernel, installed_kernel) || updated.len() > 0,
        reason: if kernel_changed(running_kernel, installed_kernel) {
            "kernel_update"@
        } else if updated.len() > 0 {
            "critical_packages"@
        } else {
            "none"@
        },
        running_kernel: Some(running_kernel),
        installed_kernel: if known {
            installed_kernel
        } else {
            None
        },
        kernel_package: if known {
            package
        } else {
            None
        },
        updated_packages: updated,
    }
}

/// The packages that take effect only at boot.
pub fn critical_packages() -> (names: Vec<String>)
    ensures
        views(names@) == seq!["systemd"@, "linux-firmware"@, "amd-ucode"@, "intel-ucode"@],
{
    let mut names: Vec<String> = Vec::new();
    names.push(String::from_str("systemd"));
    names.push(String::from_str("linux-firmware"));
    names.push(String::from_str("amd-ucode"));
    names.push(String::from_str("intel-ucode"));
    assert(views(names@) =~= seq!["systemd"@, "linux-firmware"@, "amd-ucode"@, "intel-ucode"@]);
    names
}

/// The names of the critical packages installed after `boot_time`.
fn updated_since(critical: &Vec<CriticalPackage>, boot_time: i64) -> (names: Vec<String>)
    ensures
        views(names@) == installed_since(critical@, boot_time),
{
    let mut names: Vec<String> = Vec::new();
    let mut i: usize = 0;
    assert(critical@.take(0) =~= Seq::empty());
    assert(views(names@) =~= Seq::empty());
    while i < critical.len()
        invariant
            i <= critical.len(),
            views(names@) == installed_since(critical@.take(i as int), boot_time),
        decreases critical.len() - i,
    {
        let ghost before = views(names@);
        proof {
            let next = critical@.take(i + 1);
            assert(next.drop_last() =~= critical@.take(i as int));
            assert(next.last() == critical@[i as int]);
        }
        match critical[i].install_date {
            Some(date) => {
                if date > boot_time {
                    names.push(critical[i].name.clone());
                    assert(views(names@) =~= before.push(critical@[i as int].name@));
                }
            },
            None => {},
        }
        i += 1;
    }
    assert(critical@.take(critical@.len() as int) =~= critical@);
    names
}

/// Decides whether a restart is due, from the version that the running
/// kernel reports, the installed version of the kernel package that
/// [`detect_kernel_package`] names for it (if it names one and the package
/// is installed), the critical packages with their install times, and the
/// time the system came up.
pub fn get_reboot_status(
    running_kernel: &str,
    installed_kernel: Option<String>,
    critical: &Vec<CriticalPackage>,
    boot_time: i64,
) -> (status: RebootStatus)
    ensures
        status@ == reboot_verdict(running_kernel@, text_of(installed_kernel), critical@, boot_time),
{
    let package = detect_kernel_package(running_kernel);
    let changed = match (package, &installed_kernel) {
        (Some(name), Some(installed)) => {
            let normalized = normalize_uname_to_alpm(running_kernel, name);
            !same_text(installed.as_str(), normalized.as_str())
        },
        _ => false,
    };
    let known = package.is_some() && installed_kernel.is_some();
    let updated = if changed {
        let none: Vec<String> = Vec::new();
        assert(views(none@) =~= Seq::empty());
        none
    } else {
        updated_since(critical, boot_time)
    };
    let any_updated = updated.len() > 0;
    assert(any_updated == (views(updated@).len() > 0));
    RebootStatus {
        requires_reboot: changed || any_updated,
        reason: if changed {
            String::from_str("kernel_update")
        } else if any_updated {
            String::from_str("critical_packages")
        } else {
            String::from_str("none")
        },
        running_kernel: Some(String::from_str(running_kernel)),
        installed_kernel: if known {
            installed_kernel
        } else {
            None
        },
        kernel_package: match package {
            Some(name) => if known {
                Some(String::from_str(name))
            } else {
                None
            },
            None => None,
        },
        updated_packages: updated,
    }
}

/// The time the system came up, as the first line of the kernel's
/// statistics that begins with `btime ` gives it: the number behind that
/// word, without the white space around it.
pub open spec fn boot_time_in(lines: Seq<Seq<char>>, from: int) -> Result<i64, Seq<char>>
    decreases lines.len() - from,
{
    if from < 0 || from >= lines.len() {
        Err("btime not found in /proc/stat"@)
    } else if crate::text::has_prefix(lines[from], "btime "@) {
        match crate::text::signed_value(
            crate::text::trimmed(lines[from].skip("btime "@.len() as int)),
        ) {
            Some(t) => Ok(t),
            None => Err("Failed to parse btime"@),
        }
    } else {
        boot_time_in(lines, from + 1)
    }
}

/// The content of a time read, or of the failure to read one.
pub open spec fn time_view(r: Result<i64, String>) -> Result<i64, Seq<char>> {
    match r {
        Ok(t) => Ok(t),
        Err(e) => Err(e@),
    }
}

/// Reads the time the system came up from the kernel's statistics.
pub fn get_boot_time(stat: &str) -> (r: Result<i64, String>)
    ensures
        time_view(r) == boot_time_in(crate::text::lines_of(stat@), 0),
{
    let all = crate::text::lines(stat);
    let word = to_chars("btime ");
    let mut i: usize = 0;
    while i < all.len()
        invariant
            i <= all.len(),
            word@ == "btime "@,
            views(all@) == crate::text::lines_of(stat@),
            boot_time_in(views(all@), 0) == boot_time_in(views(all@), i as int),
        decreases all.len() - i,
    {
        let chars = to_chars(all[i].as_str());
        assert(views(all@)[i as int] == chars@);
        if crate::text::starts_with(&chars, &word) {
            let value = crate::text::trim_range(&chars, word.len(), chars.len());
            assert(chars@.skip(word@.len() as int) =~= chars@.subrange(
                word@.len() as int,
                chars@.len() as int,
            ));
            return match crate::text::parse_signed(value.as_str()) {
                Some(t) => Ok(t),
                None => Err(String::from_str("Failed to parse btime")),
            };
        }
        i += 1;
    }
    Err(String::from_str("btime not found in /proc/stat"))
}

} // verus!
