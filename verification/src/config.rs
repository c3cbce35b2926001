//! The persisted configuration: the packages that upgrades leave alone and
//! the schedule of unattended runs.

use vstd::prelude::*;
use vstd::seq_lib::*;
use vstd::string::*;
use vstd::utf8::encode_utf8;

use crate::events::text_of;
use crate::text::{concat, concat3, to_lowercase, unicode_lowercase, views};

verus! {

/// What an unattended run does with the updates it finds.
#[derive(Debug, Clone, Copy, PartialEq, Eq, Structural)]
pub enum ScheduleMode {
    /// Only list them.
    Check,
    /// Install them.
    Upgrade,
}

/// The name of a mode.
pub open spec fn mode_name(mode: ScheduleMode) -> Seq<char> {
    match mode {
        ScheduleMode::Check => "check"@,
        ScheduleMode::Upgrade => "upgrade"@,
    }
}

/// The mode that a lower-cased name stands for.
pub open spec fn mode_named(lowered: Seq<char>) -> Option<ScheduleMode> {
    if lowered == "check"@ {
        Some(ScheduleMode::Check)
    } else if lowered == "upgrade"@ {
        Some(ScheduleMode::Upgrade)
    } else {
        None
    }
}

/// The content of a parsed mode.
pub open spec fn mode_result(r: Result<ScheduleMode, String>) -> Result<ScheduleMode, Seq<char>> {
    match r {
        Ok(m) => Ok(m),
        Err(e) => Err(e@),
    }
}

/// Whether two strings are the same text.
pub fn same_text(a: &str, b: &str) -> (r: bool)
    ensures
        r == (a@ == b@),
{
    let x = String::from_str(a);
    let y = String::from_str(b);
    x == y
}

impl ScheduleMode {
    /// The name of the mode.
    pub fn as_str(&self) -> (name: &'static str)
        ensures
            name@ == mode_name(*self),
    {
        match self {
            ScheduleMode::Check => "check",
            ScheduleMode::Upgrade => "upgrade",
        }
    }

    /// The mode that the lower-cased name `lowered` stands for.
    pub fn from_lowered(lowered: &str) -> (m: Option<ScheduleMode>)
        ensures
            m == mode_named(lowered@),
    {
        if same_text(lowered, "check") {
            Some(ScheduleMode::Check)
        } else if same_text(lowered, "upgrade") {
            Some(ScheduleMode::Upgrade)
        } else {
            None
        }
    }

    /// Reads a mode from its name, in any letter case.
    pub fn parse(s: &str) -> (r: Result<ScheduleMode, String>)
        ensures
            mode_result(r) == (match mode_named(unicode_lowercase(s@)) {
                Some(m) => Ok::<ScheduleMode, Seq<char>>(m),
                None => Err("Invalid schedule mode: "@ + s@),
            }),
    {
        let lowered = to_lowercase(s);
        match ScheduleMode::from_lowered(lowered.as_str()) {
            Some(m) => Ok(m),
            None => Err(concat("Invalid schedule mode: ", s)),
        }
    }
}

impl Default for ScheduleMode {
    fn default() -> (m: ScheduleMode)
        ensures
            m == ScheduleMode::Upgrade,
    {
        ScheduleMode::Upgrade
    }
}

/// The schedule of unattended runs.
#[derive(Debug, Clone, PartialEq, Eq)]
pub struct ScheduleConfig {
    pub enabled: bool,
    pub mode: ScheduleMode,
    /// When to run, as a calendar expression.
    pub schedule: String,
    /// The most updates an unattended run installs; 0 sets no limit.
    pub max_packages: usize,
}

/// The mathematical content of a [`ScheduleConfig`].
pub struct ScheduleConfigView {
    pub enabled: bool,
    pub mode: ScheduleMode,
    pub schedule: Seq<char>,
    pub max_packages: usize,
}

impl View for ScheduleConfig {
    type V = ScheduleConfigView;

    open spec fn view(&self) -> ScheduleConfigView {
        ScheduleConfigView {
            enabled: self.enabled,
            mode: self.mode,
            schedule: self.schedule@,
            max_packages: self.max_packages,
        }
    }
}

/// The schedule of a system that was never configured.
pub open spec fn default_schedule_config() -> ScheduleConfigView {
    ScheduleConfigView {
        enabled: false,
        mode: ScheduleMode::Upgrade,
        schedule: "weekly"@,
        max_packages: 0,
    }
}

/// The calendar expression of a schedule that names none.
pub fn default_schedule() -> (s: String)
    ensures
        s@ == "weekly"@,
{
    String::from_str("weekly")
}

impl Default for ScheduleConfig {
    fn default() -> (c: ScheduleConfig)
        ensures
            c@ == default_schedule_config(),
    {
        ScheduleConfig {
            enabled: false,
            mode: ScheduleMode::Upgrade,
            schedule: default_schedule(),
            max_packages: 0,
        }
    }
}

/// The whole configuration.
#[derive(Debug, Clone, PartialEq, Eq)]
pub struct AppConfig {
    pub ignored_packages: Vec<String>,
    pub schedule: ScheduleConfig,
}

/// The mathematical content of an [`AppConfig`].
pub struct AppConfigView {
    pub ignored_packages: Seq<Seq<char>>,
    pub schedule: ScheduleConfigView,
}

impl View for AppConfig {
    type V = AppConfigView;

    open spec fn view(&self) -> AppConfigView {
        AppConfigView { ignored_packages: views(self.ignored_packages@), schedule: self.schedule@ }
    }
}

impl Default for AppConfig {
    fn default() -> (c: AppConfig)
        ensures
            c@.ignored_packages.len() == 0,
            c@.schedule == default_schedule_config(),
    {
        AppConfig { ignored_packages: Vec::new(), schedule: ScheduleConfig::default() }
    }
}

/// `a` comes before `b`, or is `b`, in the order of byte strings: at the
/// first place where they differ `a` has the smaller byte, or `a` is a
/// prefix of `b`.
pub open spec fn bytes_le(a: Seq<u8>, b: Seq<u8>) -> bool
    decreases a.len(),
{
    if a.len() == 0 {
        true
    } else if b.len() == 0 {
        false
    } else if a[0] != b[0] {
        a[0] < b[0]
    } else {
        bytes_le(a.drop_first(), b.drop_first())
    }
}

/// The order of strings: the order of their UTF-8 encodings.
pub open spec fn text_le(a: Seq<char>, b: Seq<char>) -> bool {
    bytes_le(encode_utf8(a), encode_utf8(b))
}

/// Whether a list of strings is in ascending order.
pub open spec fn ascending(v: Seq<Seq<char>>) -> bool {
    forall|i: int, j: int| #![trigger v[i], v[j]] 0 <= i < j < v.len() ==> text_le(v[i], v[j])
}

/// Of two byte strings one comes before the other or is it.
pub proof fn lemma_bytes_le_total(a: Seq<u8>, b: Seq<u8>)
    ensures
        bytes_le(a, b) || bytes_le(b, a),
    decreases a.len(),
{
    if a.len() > 0 && b.len() > 0 && a[0] == b[0] {
        lemma_bytes_le_total(a.drop_first(), b.drop_first());
    }
}

/// The order of byte strings is transitive.
pub proof fn lemma_bytes_le_transitive(a: Seq<u8>, b: Seq<u8>, c: Seq<u8>)
    requires
        bytes_le(a, b),
        bytes_le(b, c),
    ensures
        bytes_le(a, c),
    decreases a.len(),
{
    if a.len() > 0 && b.len() > 0 && c.len() > 0 && a[0] == b[0] && b[0] == c[0] {
        lemma_bytes_le_transitive(a.drop_first(), b.drop_first(), c.drop_first());
    }
}

/// Whether `a` comes before `b` or is `b`.
pub fn bytes_at_most(a: &[u8], b: &[u8]) -> (r: bool)
    ensures
        r == bytes_le(a@, b@),
{
    let mut i: usize = 0;
    proof {
        assert(a@.skip(0) =~= a@);
        assert(b@.skip(0) =~= b@);
    }
    while i < a.len() && i < b.len()
        invariant
            i <= a.len(),
            i <= b.len(),
            bytes_le(a@, b@) == bytes_le(a@.skip(i as int), b@.skip(i as int)),
        decreases a.len() - i,
    {
        proof {
            let x = a@.skip(i as int);
            let y = b@.skip(i as int);
            assert(x[0] == a@[i as int]);
            assert(y[0] == b@[i as int]);
            assert(x.drop_first() =~= a@.skip(i + 1));
            assert(y.drop_first() =~= b@.skip(i + 1));
        }
        if a[i] != b[i] {
            return a[i] < b[i];
        }
        i += 1;
    }
    i == a.len()
}

/// Whether the string `a` comes before `b` or is `b`.
pub fn text_at_most(a: &str, b: &str) -> (r: bool)
    ensures
        r == text_le(a@, b@),
{
    bytes_at_most(a.as_bytes(), b.as_bytes())
}

/// `pos` is the first index at which `v` holds `s`.
pub open spec fn first_at(v: Seq<Seq<char>>, s: Seq<char>, pos: int) -> bool {
    &&& 0 <= pos < v.len()
    &&& v[pos] == s
    &&& forall|j: int| 0 <= j < pos ==> v[j] != s
}

/// Whether `v` holds the text `s`.
pub fn holds_text(v: &Vec<String>, s: &str) -> (r: bool)
    ensures
        r == views(v@).contains(s@),
{
    position_of(v, s).is_some()
}

/// The first index at which `v` holds the text `s`.
pub fn position_of(v: &Vec<String>, s: &str) -> (r: Option<usize>)
    ensures
        match r {
            Some(i) => first_at(views(v@), s@, i as int),
            None => !views(v@).contains(s@),
        },
{
    let mut i: usize = 0;
    while i < v.len()
        invariant
            i <= v.len(),
            forall|j: int| 0 <= j < i ==> v@[j]@ != s@,
        decreases v.len() - i,
    {
        if same_text(v[i].as_str(), s) {
            assert(views(v@)[i as int] == s@);
            assert forall|j: int| 0 <= j < i implies views(v@)[j] != s@ by {
                assert(views(v@)[j] == v@[j]@);
            }
            return Some(i);
        }
        i += 1;
    }
    assert forall|j: int| 0 <= j < views(v@).len() implies views(v@)[j] != s@ by {
        assert(views(v@)[j] == v@[j]@);
    }
    None
}

/// The strings of `v` in ascending order.
pub fn sorted_copy(v: &Vec<String>) -> (out: Vec<String>)
    ensures
        ascending(views(out@)),
        views(out@).to_multiset() == views(v@).to_multiset(),
{
    let mut out: Vec<String> = Vec::new();
    let mut i: usize = 0;
    assert(views(out@) =~= views(v@).take(0));
    while i < v.len()
        invariant
            i <= v.len(),
            ascending(views(out@)),
            views(out@).to_multiset() == views(v@).take(i as int).to_multiset(),
        decreases v.len() - i,
    {
        let mut k: usize = 0;
        while k < out.len() && text_at_most(out[k].as_str(), v[i].as_str())
            invariant
                k <= out.len(),
                i < v.len(),
                forall|j: int| 0 <= j < k ==> text_le(out@[j]@, v@[i as int]@),
            decreases out.len() - k,
        {
            k += 1;
        }
        let ghost before = views(out@);
        let ghost old_out = out@;
        let ghost x = v@[i as int]@;
        out.insert(k, v[i].clone());
        proof {
            assert(views(out@) =~= before.insert(k as int, x));
            to_multiset_insert(before, k as int, x);
            let next = views(v@).take(i + 1);
            assert(next =~= views(v@).take(i as int).push(x));
            to_multiset_build(views(v@).take(i as int), x);
            assert forall|a: int, b: int| 0 <= a < b < views(out@).len() implies text_le(
                views(out@)[a],
                views(out@)[b],
            ) by {
                let after = views(out@);
                if b == k {
                    assert(after[a] == before[a]);
                    assert(before[a] == old_out[a]@);
                } else if a == k {
                    assert(after[b] == before[b - 1]);
                    if k < before.len() {
                        assert(before[k as int] == old_out[k as int]@);
                        lemma_bytes_le_total(encode_utf8(before[k as int]), encode_utf8(x));
                        assert(text_le(x, before[k as int]));
                        if b - 1 > k {
                            assert(text_le(before[k as int], before[b - 1]));
                            lemma_bytes_le_transitive(
                                encode_utf8(x),
                                encode_utf8(before[k as int]),
                                encode_utf8(before[b - 1]),
                            );
                        }
                    }
                } else {
                    let a0 = if a < k {
                        a
                    } else {
                        a - 1
                    };
                    let b0 = if b < k {
                        b
                    } else {
                        b - 1
                    };
                    assert(after[a] == before[a0]);
                    assert(after[b] == before[b0]);
                }
            }
        }
        i += 1;
    }
    assert(views(v@).take(v@.len() as int) =~= views(v@));
    out
}

impl AppConfig {
    /// Puts `package` on the ignore list unless it is there already, and
    /// says whether it was put there. After a package was added the whole
    /// list is in ascending order; it holds what it held before and the new
    /// package, nothing else. A package that is already there leaves the
    /// list as it is.
    pub fn add_ignored(&mut self, package: &str) -> (added: bool)
        ensures
            added == !old(self)@.ignored_packages.contains(package@),
            final(self)@.schedule == old(self)@.schedule,
            added ==> ascending(final(self)@.ignored_packages),
            added ==> final(self)@.ignored_packages.to_multiset()
                == old(self)@.ignored_packages.push(package@).to_multiset(),
            !added ==> final(self)@.ignored_packages == old(self)@.ignored_packages,
    {
        if holds_text(&self.ignored_packages, package) {
            false
        } else {
            let ghost before = views(self.ignored_packages@);
            self.ignored_packages.push(String::from_str(package));
            assert(views(self.ignored_packages@) =~= before.push(package@));
            let sorted = sorted_copy(&self.ignored_packages);
            self.ignored_packages = sorted;
            true
        }
    }

    /// Takes `package` off the ignore list and says whether it was there.
    /// The first entry with that name goes; the others keep their order.
    pub fn remove_ignored(&mut self, package: &str) -> (removed: bool)
        ensures
            removed == old(self)@.ignored_packages.contains(package@),
            final(self)@.schedule == old(self)@.schedule,
            removed ==> exists|pos: int|
                #![trigger old(self)@.ignored_packages.remove(pos)]
                first_at(old(self)@.ignored_packages, package@, pos)
                    && final(self)@.ignored_packages == old(self)@.ignored_packages.remove(pos),
            !removed ==> final(self)@.ignored_packages == old(self)@.ignored_packages,
    {
        match position_of(&self.ignored_packages, package) {
            Some(pos) => {
                let ghost before = views(self.ignored_packages@);
                self.ignored_packages.remove(pos);
                proof {
                    assert(before[pos as int] == package@);
                    assert(views(self.ignored_packages@) =~= before.remove(pos as int));
                }
                true
            },
            None => false,
        }
    }

    /// Whether `package` is on the ignore list.
    pub fn is_ignored(&self, package: &str) -> (r: bool)
        ensures
            r == self@.ignored_packages.contains(package@),
    {
        holds_text(&self.ignored_packages, package)
    }
}

/// The ignore list, as reported to the caller.
#[derive(Debug, Clone, PartialEq, Eq)]
pub struct IgnoredPackagesResponse {
    pub packages: Vec<String>,
    pub total: usize,
}

impl IgnoredPackagesResponse {
    /// The ignore list of `config` with its length.
    pub fn from_config(config: &AppConfig) -> (r: IgnoredPackagesResponse)
        ensures
            views(r.packages@) == config@.ignored_packages,
            r.total == config@.ignored_packages.len(),
    {
        let packages = crate::questions::copy_strings(&config.ignored_packages);
        assert(views(packages@).len() == packages@.len());
        IgnoredPackagesResponse { total: config.ignored_packages.len(), packages }
    }
}

impl<'a> From<&'a AppConfig> for IgnoredPackagesResponse {
    fn from(config: &'a AppConfig) -> (r: IgnoredPackagesResponse) {
        IgnoredPackagesResponse::from_config(config)
    }
}

impl<'a> vstd::std_specs::convert::FromSpecImpl<&'a AppConfig> for IgnoredPackagesResponse {
    open spec fn obeys_from_spec() -> bool {
        false
    }

    open spec fn from_spec(config: &'a AppConfig) -> IgnoredPackagesResponse {
        IgnoredPackagesResponse {
            packages: config.ignored_packages,
            total: config.ignored_packages@.len() as usize,
        }
    }
}

/// The outcome of a change to the ignore list, as reported to the caller.
#[derive(Debug, Clone, PartialEq, Eq)]
pub struct IgnoreOperationResponse {
    pub success: bool,
    pub package: String,
    pub message: String,
}

/// The report of an attempt to put `package` on the ignore list. The
/// attempt counts as a success also where the package was there already.
pub fn add_ignored(package: &str, added: bool) -> (r: IgnoreOperationResponse)
    ensures
        r.success,
        r.package@ == package@,
        r.message@ == "Package '"@ + package@ + (if added {
            "' added to ignored list"@
        } else {
            "' was already in ignored list"@
        }),
{
    IgnoreOperationResponse {
        success: true,
        package: String::from_str(package),
        message: if added {
            concat3("Package '", package, "' added to ignored list")
        } else {
            concat3("Package '", package, "' was already in ignored list")
        },
    }
}

/// The report of an attempt to take `package` off the ignore list, which
/// succeeds only where the package was on it.
pub fn remove_ignored(package: &str, removed: bool) -> (r: IgnoreOperationResponse)
    ensures
        r.success == removed,
        r.package@ == package@,
        r.message@ == "Package '"@ + package@ + (if removed {
            "' removed from ignored list"@
        } else {
            "' was not in ignored list"@
        }),
{
    IgnoreOperationResponse {
        success: removed,
        package: String::from_str(package),
        message: if removed {
            concat3("Package '", package, "' removed from ignored list")
        } else {
            concat3("Package '", package, "' was not in ignored list")
        },
    }
}

/// The schedule and the state of its timer, as reported to the caller.
#[derive(Debug, Clone, PartialEq, Eq)]
pub struct ScheduleConfigResponse {
    pub enabled: bool,
    pub mode: String,
    pub schedule: String,
    pub max_packages: usize,
    pub timer_active: bool,
    pub timer_next_run: Option<String>,
}

impl ScheduleConfigResponse {
    /// The report for the schedule `config` and the timer state given.
    pub fn from_config(
        config: &ScheduleConfig,
        timer_active: bool,
        timer_next_run: Option<String>,
    ) -> (r: ScheduleConfigResponse)
        ensures
            r.enabled == config.enabled,
            r.mode@ == mode_name(config.mode),
            r.schedule@ == config.schedule@,
            r.max_packages == config.max_packages,
            r.timer_active == timer_active,
            text_of(r.timer_next_run) == text_of(timer_next_run),
    {
        ScheduleConfigResponse {
            enabled: config.enabled,
            mode: String::from_str(config.mode.as_str()),
            schedule: config.schedule.clone(),
            max_packages: config.max_packages,
            timer_active,
            timer_next_run,
        }
    }
}

/// The outcome of a change to the schedule, as reported to the caller.
#[derive(Debug, Clone, PartialEq, Eq)]
pub struct ScheduleSetResponse {
    pub success: bool,
    pub message: String,
}

/// The text that reports a changed schedule.
pub open spec fn schedule_set_message(schedule: ScheduleConfigView) -> Seq<char> {
    if schedule.enabled {
        "Schedule enabled with "@ + mode_name(schedule.mode) + " mode"@
    } else {
        "Schedule disabled"@
    }
}

/// The schedule `schedule` with the settings given put in place of its
/// own; a setting that is not given stays.
pub open spec fn schedule_with(
    schedule: ScheduleConfigView,
    enabled: Option<bool>,
    mode: Option<ScheduleMode>,
    calendar: Option<Seq<char>>,
    max_packages: Option<usize>,
) -> ScheduleConfigView {
    ScheduleConfigView {
        enabled: match enabled {
            Some(e) => e,
            None => schedule.enabled,
        },
        mode: match mode {
            Some(m) => m,
            None => schedule.mode,
        },
        schedule: match calendar {
            Some(c) => c,
            None => schedule.schedule,
        },
        max_packages: match max_packages {
            Some(n) => n,
            None => schedule.max_packages,
        },
    }
}

/// What a request to change the schedule asks for, once it is checked:
/// the mode read from its name, or the text that rejects the request. The
/// calendar expression and the limit are checked first, in this order, and
/// the mode is read last.
pub open spec fn checked_request(
    mode: Option<Seq<char>>,
    calendar: Option<Seq<char>>,
    max_packages: Option<usize>,
) -> Result<Option<ScheduleMode>, Seq<char>> {
    let calendar_verdict = match calendar {
        Some(c) => crate::validation::schedule_verdict(c),
        None => Ok(()),
    };
    let limit_verdict = match max_packages {
        Some(n) => crate::validation::max_packages_verdict(n),
        None => Ok(()),
    };
    if calendar_verdict is Err {
        Err(calendar_verdict->Err_0)
    } else if limit_verdict is Err {
        Err(limit_verdict->Err_0)
    } else {
        match mode {
            Some(m) => match mode_named(unicode_lowercase(m)) {
                Some(parsed) => Ok(Some(parsed)),
                None => Err("Invalid schedule mode: "@ + m),
            },
            None => Ok(None),
        }
    }
}

/// The content of an optional text.
pub open spec fn opt_text(s: Option<&str>) -> Option<Seq<char>> {
    match s {
        Some(t) => Some(t@),
        None => None,
    }
}

/// The content of the outcome of a change.
pub open spec fn set_result(r: Result<ScheduleSetResponse, String>) -> Result<
    (bool, Seq<char>),
    Seq<char>,
> {
    match r {
        Ok(response) => Ok((response.success, response.message@)),
        Err(e) => Err(e@),
    }
}

/// Changes the schedule of `config` as asked. The request is checked
/// before anything is changed: a request that is rejected leaves the
/// configuration as it was. A request that is accepted puts the settings
/// given in place and reports the schedule that results.
pub fn set_schedule_config(
    config: &mut AppConfig,
    enabled: Option<bool>,
    mode: Option<&str>,
    schedule: Option<&str>,
    max_packages: Option<usize>,
) -> (r: Result<ScheduleSetResponse, String>)
    ensures
        final(config)@.ignored_packages == old(config)@.ignored_packages,
        match checked_request(opt_text(mode), opt_text(schedule), max_packages) {
            Ok(parsed) => {
                let changed = schedule_with(
                    old(config)@.schedule,
                    enabled,
                    parsed,
                    opt_text(schedule),
                    max_packages,
                );
                &&& final(config)@.schedule == changed
                &&& set_result(r) == Ok::<(bool, Seq<char>), Seq<char>>(
                    (true, schedule_set_message(changed)),
                )
            },
            Err(text) => {
                &&& final(config)@ == old(config)@
                &&& set_result(r) == Err::<(bool, Seq<char>), Seq<char>>(text)
            },
        },
{
    match schedule {
        Some(s) => match crate::validation::validate_schedule(s) {
            Err(e) => {
                return Err(e);
            },
            Ok(()) => {},
        },
        None => {},
    }
    match max_packages {
        Some(n) => match crate::validation::validate_max_packages(n) {
            Err(e) => {
                return Err(e);
            },
            Ok(()) => {},
        },
        None => {},
    }
    let parsed = match mode {
        Some(m) => match ScheduleMode::parse(m) {
            Ok(p) => Some(p),
            Err(e) => {
                return Err(e);
            },
        },
        None => None,
    };
    match enabled {
        Some(e) => {
            config.schedule.enabled = e;
        },
        None => {},
    }
    match parsed {
        Some(m) => {
            config.schedule.mode = m;
        },
        None => {},
    }
    match schedule {
        Some(s) => {
            config.schedule.schedule = String::from_str(s);
        },
        None => {},
    }
    match max_packages {
        Some(n) => {
            config.schedule.max_packages = n;
        },
        None => {},
    }
    let message = if config.schedule.enabled {
        concat3("Schedule enabled with ", config.schedule.mode.as_str(), " mode")
    } else {
        String::from_str("Schedule disabled")
    };
    Ok(ScheduleSetResponse { success: true, message })
}

/// The content of the timer's drop-in file for a calendar expression: the
/// timer's own times are cleared and the expression is put in their place.
pub open spec fn drop_in_text(calendar: Seq<char>) -> Seq<char> {
    "[Timer]\nOnCalendar=\nOnCalendar="@ + calendar + "\n"@
}

/// The content of the timer's drop-in file for the schedule `schedule`.
pub fn timer_drop_in(schedule: &ScheduleConfig) -> (text: String)
    ensures
        text@ == drop_in_text(schedule.schedule@),
{
    concat3("[Timer]\nOnCalendar=\nOnCalendar=", schedule.schedule.as_str(), "\n")
}

/// `line` without the prefix `prefix`, where it has it.
pub open spec fn after_prefix(line: Seq<char>, prefix: Seq<char>) -> Option<Seq<char>> {
    if crate::text::has_prefix(line, prefix) {
        Some(line.skip(prefix.len() as int))
    } else {
        None
    }
}

/// The state of the timer after one more line of the service manager's
/// report: a line that gives the state says whether the timer is active;
/// a line that gives the next run replaces it where it names a time.
pub open spec fn timer_after(state: (bool, Option<Seq<char>>), line: Seq<char>) -> (
    bool,
    Option<Seq<char>>,
) {
    let active = match after_prefix(line, "ActiveState="@) {
        Some(value) => value == "active"@,
        None => state.0,
    };
    let next = match after_prefix(line, "NextElapseUSecRealtime="@) {
        Some(value) => if value.len() > 0 && value != "n/a"@ {
            Some(value)
        } else {
            state.1
        },
        None => state.1,
    };
    (active, next)
}

/// The state of the timer after the lines `lines`.
pub open spec fn timer_status(lines: Seq<Seq<char>>) -> (bool, Option<Seq<char>>)
    decreases lines.len(),
{
    if lines.len() == 0 {
        (false, None)
    } else {
        timer_after(timer_status(lines.drop_last()), lines.last())
    }
}

/// What stands behind `prefix` in `line`, where `line` begins with it.
fn strip_prefix(line: &str, prefix: &str) -> (r: Option<String>)
    ensures
        text_of(r) == after_prefix(line@, prefix@),
{
    let chars = crate::text::to_chars(line);
    let head = crate::text::to_chars(prefix);
    if crate::text::starts_with(&chars, &head) {
        let out = crate::text::slice_to_string(&chars, head.len(), chars.len());
        assert(chars@.skip(head@.len() as int) =~= chars@.subrange(
            head@.len() as int,
            chars@.len() as int,
        ));
        Some(out)
    } else {
        None
    }
}

/// Reads the state of the timer from the report of the service manager:
/// whether the timer is active, and when it runs next, where that is
/// known.
pub fn get_timer_status(report: &str) -> (r: (bool, Option<String>))
    ensures
        (r.0, text_of(r.1)) == timer_status(crate::text::lines_of(report@)),
{
    let all = crate::text::lines(report);
    let mut active = false;
    let mut next: Option<String> = None;
    let mut i: usize = 0;
    let ghost texts = views(all@);
    assert(texts.take(0) =~= Seq::<Seq<char>>::empty());
    while i < all.len()
        invariant
            i <= all.len(),
            texts == views(all@),
            (active, text_of(next)) == timer_status(texts.take(i as int)),
        decreases all.len() - i,
    {
        proof {
            let upto = texts.take(i + 1);
            assert(upto.drop_last() =~= texts.take(i as int));
            assert(upto.last() == all@[i as int]@);
        }
        match strip_prefix(all[i].as_str(), "ActiveState=") {
            Some(value) => {
                active = same_text(value.as_str(), "active");
            },
            None => {},
        }
        match strip_prefix(all[i].as_str(), "NextElapseUSecRealtime=") {
            Some(value) => {
                if !value.as_str().is_empty() && !same_text(value.as_str(), "n/a") {
                    next = Some(value);
                }
            },
            None => {},
        }
        i += 1;
    }
    assert(texts.take(texts.len() as int) =~= texts);
    (active, next)
}

/// What the caller is told of the schedule: the schedule of `config`, and
/// the state of the timer as the report `report` of the service manager
/// gives it. Where the service manager could not be asked, the report is
/// empty, and the timer counts as inactive with no next run.
pub fn get_schedule_config(config: &AppConfig, report: &str) -> (r: ScheduleConfigResponse)
    ensures
        r.enabled == config.schedule.enabled,
        r.mode@ == mode_name(config.schedule.mode),
        r.schedule@ == config.schedule.schedule@,
        r.max_packages == config.schedule.max_packages,
        (r.timer_active, text_of(r.timer_next_run)) == timer_status(
            crate::text::lines_of(report@),
        ),
{
    let (active, next) = get_timer_status(report);
    ScheduleConfigResponse::from_config(&config.schedule, active, next)
}

/// A step that puts a schedule into effect with the service manager.
#[derive(Debug, Clone, PartialEq, Eq)]
pub enum TimerAction {
    /// Make the directory of the timer's drop-in files.
    CreateDropInDir,
    /// Write the drop-in file with this content.
    WriteDropIn(String),
    /// Remove the drop-in file.
    RemoveDropIn,
    /// Have the service manager read its files anew.
    DaemonReload,
    /// Switch the timer on and start it.
    EnableTimer,
    /// Switch the timer off and stop it.
    DisableTimer,
}

/// The mathematical content of a [`TimerAction`].
pub enum TimerActionView {
    CreateDropInDir,
    WriteDropIn(Seq<char>),
    RemoveDropIn,
    DaemonReload,
    EnableTimer,
    DisableTimer,
}

impl View for TimerAction {
    type V = TimerActionView;

    open spec fn view(&self) -> TimerActionView {
        match *self {
            TimerAction::CreateDropInDir => TimerActionView::CreateDropInDir,
            TimerAction::WriteDropIn(text) => TimerActionView::WriteDropIn(text@),
            TimerAction::RemoveDropIn => TimerActionView::RemoveDropIn,
            TimerAction::DaemonReload => TimerActionView::DaemonReload,
            TimerAction::EnableTimer => TimerActionView::EnableTimer,
            TimerAction::DisableTimer => TimerActionView::DisableTimer,
        }
    }
}

/// The contents of a list of steps, element by element.
pub open spec fn action_views(v: Seq<TimerAction>) -> Seq<TimerActionView> {
    Seq::new(v.len(), |i: int| v[i]@)
}

/// The steps that put a schedule into effect, in order. A schedule that is
/// enabled gets its drop-in file, is read by the service manager, and is
/// switched on; one that is not is switched off, loses its drop-in file,
/// and the service manager reads its files anew.
pub open spec fn schedule_steps(schedule: ScheduleConfigView) -> Seq<TimerActionView> {
    if schedule.enabled {
        seq![
            TimerActionView::CreateDropInDir,
            TimerActionView::WriteDropIn(drop_in_text(schedule.schedule)),
            TimerActionView::DaemonReload,
            TimerActionView::EnableTimer,
        ]
    } else {
        seq![
            TimerActionView::DisableTimer,
            TimerActionView::RemoveDropIn,
            TimerActionView::DaemonReload,
        ]
    }
}

/// What the failure of a step calls for: nothing where the failure does
/// not matter, else the steps that undo what was done and the text that
/// reports the failure, which ends with what the step wrote to its
/// errors.
pub open spec fn failure_of(enabled: bool, step: TimerActionView, errors: Seq<char>) -> Option<
    (Seq<TimerActionView>, Seq<char>),
> {
    match step {
        TimerActionView::DaemonReload => Some(
            (
                if enabled {
                    seq![TimerActionView::RemoveDropIn]
                } else {
                    Seq::empty()
                },
                "systemctl daemon-reload failed: "@ + errors,
            ),
        ),
        TimerActionView::EnableTimer => Some(
            (
                seq![TimerActionView::RemoveDropIn, TimerActionView::DaemonReload],
                "Failed to enable timer: "@ + errors,
            ),
        ),
        TimerActionView::CreateDropInDir => Some(
            (Seq::empty(), "Failed to create timer drop-in directory: "@ + errors),
        ),
        TimerActionView::WriteDropIn(_) => Some(
            (Seq::empty(), "Failed to write timer drop-in: "@ + errors),
        ),
        TimerActionView::DisableTimer => None,
        TimerActionView::RemoveDropIn => None,
    }
}

/// The steps that put the schedule of `config` into effect.
pub fn apply_schedule_to_systemd(config: &AppConfig) -> (steps: Vec<TimerAction>)
    ensures
        action_views(steps@) == schedule_steps(config@.schedule),
{
    let mut steps: Vec<TimerAction> = Vec::new();
    if config.schedule.enabled {
        steps.push(TimerAction::CreateDropInDir);
        steps.push(TimerAction::WriteDropIn(timer_drop_in(&config.schedule)));
        steps.push(TimerAction::DaemonReload);
        steps.push(TimerAction::EnableTimer);
    } else {
        steps.push(TimerAction::DisableTimer);
        steps.push(TimerAction::RemoveDropIn);
        steps.push(TimerAction::DaemonReload);
    }
    assert(action_views(steps@) =~= schedule_steps(config@.schedule));
    steps
}

/// The content of what a failure calls for.
pub open spec fn failure_view(r: Option<(Vec<TimerAction>, String)>) -> Option<
    (Seq<TimerActionView>, Seq<char>),
> {
    match r {
        Some((undo, text)) => Some((action_views(undo@), text@)),
        None => None,
    }
}

/// What the failure of the step `step` calls for, where `errors` is what
/// the step wrote to its errors.
pub fn timer_step_failed(enabled: bool, step: &TimerAction, errors: &str) -> (r: Option<
    (Vec<TimerAction>, String),
>)
    ensures
        failure_view(r) == failure_of(enabled, step@, errors@),
{
    let mut undo: Vec<TimerAction> = Vec::new();
    assert(action_views(undo@) =~= Seq::<TimerActionView>::empty());
    match step {
        TimerAction::DaemonReload => {
            if enabled {
                undo.push(TimerAction::RemoveDropIn);
                assert(action_views(undo@) =~= seq![TimerActionView::RemoveDropIn]);
            }
            Some((undo, concat("systemctl daemon-reload failed: ", errors)))
        },
        TimerAction::EnableTimer => {
            undo.push(TimerAction::RemoveDropIn);
            undo.push(TimerAction::DaemonReload);
            assert(action_views(undo@) =~= seq![
                TimerActionView::RemoveDropIn,
                TimerActionView::DaemonReload,
            ]);
            Some((undo, concat("Failed to enable timer: ", errors)))
        },
        TimerAction::CreateDropInDir => Some(
            (undo, concat("Failed to create timer drop-in directory: ", errors)),
        ),
        TimerAction::WriteDropIn(_) => Some(
            (undo, concat("Failed to write timer drop-in: ", errors)),
        ),
        TimerAction::DisableTimer => None,
        TimerAction::RemoveDropIn => None,
    }
}

} // verus!
