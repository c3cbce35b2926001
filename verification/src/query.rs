//! What the caller is told of the installed packages and of the packages
//! on offer.
//!
//! The packages come from the engine's databases as plain records. What is
//! decided here is which of them are listed, in which order, on which
//! page, and with which totals.

use vstd::prelude::*;
use vstd::string::*;

use crate::callbacks::{reason_name, reason_to_string};
use crate::config::{holds_text, same_text};
use crate::engine::{PackageReason, UpdateInfo};
use crate::events::text_of;
use crate::listing::{
    add_sizes, clamped_sum, distinct_ascending, is_ordering, key_views, page_bounds, page_of,
    sort_with_direction, sorted_distinct, SortKey, SortKeyView,
};
use crate::text::{
    concat3, join, joined, occurs_in, str_contains, to_lowercase, unicode_lowercase, views,
};

verus! {

/// Whether `text` holds the lower-cased `query` without regard to case.
pub open spec fn mentions(text: Seq<char>, query: Seq<char>) -> bool {
    occurs_in(unicode_lowercase(text), query)
}

/// Whether a package with the name and the description given is found by
/// the lower-cased query: its name or its description holds it. Without a
/// query every package is found.
pub open spec fn found_by(
    name: Seq<char>,
    description: Option<Seq<char>>,
    query: Option<Seq<char>>,
) -> bool {
    match query {
        Some(q) => mentions(name, q) || (match description {
            Some(d) => mentions(d, q),
            None => false,
        }),
        None => true,
    }
}

/// Whether the package is found by the lower-cased query.
pub fn finds(name: &str, description: &Option<String>, query: &Option<String>) -> (r: bool)
    ensures
        r == found_by(name@, text_of(*description), text_of(*query)),
{
    match query {
        Some(q) => {
            let lowered = to_lowercase(name);
            if str_contains(lowered.as_str(), q.as_str()) {
                true
            } else {
                match description {
                    Some(d) => {
                        let lowered = to_lowercase(d.as_str());
                        str_contains(lowered.as_str(), q.as_str())
                    },
                    None => false,
                }
            }
        },
        None => true,
    }
}

/// The lower-cased form of a query, where there is one.
pub fn lowered_query(search: Option<&str>) -> (q: Option<String>)
    ensures
        text_of(q) == (match search {
            Some(s) => Some(unicode_lowercase(s@)),
            None => None,
        }),
{
    match search {
        Some(s) => Some(to_lowercase(s)),
        None => None,
    }
}

/// The order in which a list is shown: `keys` holds the key of each entry
/// where the list is sorted. The entries are shown in the order of their
/// keys, or, where the list is not sorted, as they were given.
pub open spec fn arrangement(
    count: nat,
    keys: Option<Seq<SortKeyView>>,
    ascending: bool,
    order: Seq<usize>,
) -> bool {
    match keys {
        Some(k) => k.len() == count && is_ordering(k, ascending, order),
        None => order.len() == count && forall|i: int|
            0 <= i < order.len() ==> (#[trigger] order[i]) == i,
    }
}

/// The content of optional keys.
pub open spec fn keys_of(keys: Option<Vec<SortKey>>) -> Option<Seq<SortKeyView>> {
    match keys {
        Some(k) => Some(key_views(k@)),
        None => None,
    }
}

/// The places of the entries of one page: of `count` entries, arranged by
/// their keys where they have some, the page that skips the first `offset`
/// and holds at most `limit`.
pub fn arrange(count: usize, keys: Option<Vec<SortKey>>, ascending: bool, offset: usize, limit: usize) -> (page:
    Vec<usize>)
    requires
        keys matches Some(k) ==> k@.len() == count,
    ensures
        exists|order: Seq<usize>|
            #![trigger arrangement(count as nat, keys_of(keys), ascending, order)]
            arrangement(count as nat, keys_of(keys), ascending, order) && page@ == order.subrange(
                page_of(count as nat, offset, limit).0,
                page_of(count as nat, offset, limit).1,
            ),
        forall|i: int| 0 <= i < page@.len() ==> (#[trigger] page@[i]) < count,
{
    let order: Vec<usize> = match &keys {
        Some(k) => sort_with_direction(k, ascending),
        None => {
            let mut plain: Vec<usize> = Vec::new();
            let mut i: usize = 0;
            while i < count
                invariant
                    i <= count,
                    plain@.len() == i,
                    forall|j: int| 0 <= j < i ==> (#[trigger] plain@[j]) == j,
                decreases count - i,
            {
                plain.push(i);
                i += 1;
            }
            plain
        },
    };
    assert(arrangement(count as nat, keys_of(keys), ascending, order@));
    let (from, to) = page_bounds(count, offset, limit);
    let mut page: Vec<usize> = Vec::new();
    let mut i: usize = from;
    while i < to
        invariant
            from <= i <= to <= count,
            order@.len() == count,
            page@ == order@.subrange(from as int, i as int),
            forall|j: int| 0 <= j < order@.len() ==> (#[trigger] order@[j]) < count,
        decreases to - i,
    {
        page.push(order[i]);
        assert(order@.subrange(from as int, i + 1) =~= order@.subrange(from as int, i as int).push(
            order@[i as int],
        ));
        i += 1;
    }
    assert forall|j: int| 0 <= j < page@.len() implies (#[trigger] page@[j]) < count by {
        assert(page@[j] == order@[from + j]);
    }
    page
}

/// Whether the order is ascending: it is unless the direction is `desc`.
pub fn is_ascending(sort_dir: Option<&str>) -> (r: bool)
    ensures
        r == ascending_asked(opt_view(sort_dir)),
{
    match sort_dir {
        Some(d) => !same_text(d, "desc"),
        None => true,
    }
}

/// An installed package as the engine's database has it, with the
/// repository that offers it, where one does.
#[derive(Debug, Clone, PartialEq, Eq)]
pub struct LocalPackage {
    pub name: String,
    pub version: String,
    pub description: Option<String>,
    pub installed_size: i64,
    pub install_date: Option<i64>,
    pub reason: PackageReason,
    pub repository: Option<String>,
}

/// An installed package as the caller is told of it.
#[derive(Debug, Clone, PartialEq, Eq)]
pub struct Package {
    pub name: String,
    pub version: String,
    pub description: Option<String>,
    pub installed_size: i64,
    pub install_date: Option<i64>,
    pub reason: String,
    pub repository: Option<String>,
}

/// The mathematical content of a [`Package`].
pub struct PackageView {
    pub name: Seq<char>,
    pub version: Seq<char>,
    pub description: Option<Seq<char>>,
    pub installed_size: i64,
    pub install_date: Option<i64>,
    pub reason: Seq<char>,
    pub repository: Option<Seq<char>>,
}

impl View for Package {
    type V = PackageView;

    open spec fn view(&self) -> PackageView {
        PackageView {
            name: self.name@,
            version: self.version@,
            description: text_of(self.description),
            installed_size: self.installed_size,
            install_date: self.install_date,
            reason: self.reason@,
            repository: text_of(self.repository),
        }
    }
}

/// What the caller is told of an installed package.
pub open spec fn told(p: LocalPackage) -> PackageView {
    PackageView {
        name: p.name@,
        version: p.version@,
        description: text_of(p.description),
        installed_size: p.installed_size,
        install_date: p.install_date,
        reason: reason_name(p.reason),
        repository: text_of(p.repository),
    }
}

/// The installed packages as the caller is told of them.
#[derive(Debug, Clone, PartialEq, Eq)]
pub struct PackageListResponse {
    pub packages: Vec<Package>,
    pub total: usize,
    pub total_explicit: usize,
    pub total_dependency: usize,
    pub repositories: Vec<String>,
    pub warnings: Vec<String>,
}

/// What is asked of the list of installed packages, with the query in
/// lower case.
pub struct ListCriteria {
    pub query: Option<Seq<char>>,
    pub reason: Option<PackageReason>,
    pub repository: Option<Seq<char>>,
}

/// The repository that an installed package is listed under: the one that
/// offers it, or `user` where none does.
pub open spec fn repository_of(p: LocalPackage) -> Seq<char> {
    match p.repository {
        Some(r) => r@,
        None => "user"@,
    }
}

/// Whether a package is found by the query and lies in the repository
/// asked for. The totals by reason count these packages.
pub open spec fn in_scope(p: LocalPackage, c: ListCriteria) -> bool {
    &&& found_by(p.name@, text_of(p.description), c.query)
    &&& (c.repository matches Some(r) ==> repository_of(p) == r)
}

/// Whether a package is listed: it is in scope and was installed for the
/// reason asked for.
pub open spec fn is_listed(p: LocalPackage, c: ListCriteria) -> bool {
    &&& in_scope(p, c)
    &&& (c.reason matches Some(r) ==> p.reason == r)
}

/// The indices of the packages listed, in the order given.
pub open spec fn listed_indices(packages: Seq<LocalPackage>, c: ListCriteria) -> Seq<usize>
    decreases packages.len(),
{
    if packages.len() == 0 {
        Seq::empty()
    } else {
        let before = listed_indices(packages.drop_last(), c);
        if is_listed(packages.last(), c) {
            before.push((packages.len() - 1) as usize)
        } else {
            before
        }
    }
}

/// How many of the packages in scope were installed for the reason
/// `reason`.
pub open spec fn scope_count(packages: Seq<LocalPackage>, c: ListCriteria, reason: PackageReason) -> nat
    decreases packages.len(),
{
    if packages.len() == 0 {
        0
    } else {
        scope_count(packages.drop_last(), c, reason) + (if in_scope(packages.last(), c)
            && packages.last().reason == reason {
            1nat
        } else {
            0nat
        })
    }
}

/// The reason that a filter asks for, where it names one.
pub open spec fn reason_asked(filter: Option<Seq<char>>) -> Option<PackageReason> {
    match filter {
        Some(f) => if f == "explicit"@ {
            Some(PackageReason::Explicit)
        } else if f == "dependency"@ {
            Some(PackageReason::Depend)
        } else {
            None
        },
        None => None,
    }
}

/// The key by which an installed package is ranked, for the column asked
/// for, where that is one of the three.
pub open spec fn package_key(p: LocalPackage, sort_by: Option<Seq<char>>) -> Option<SortKeyView> {
    match sort_by {
        Some(column) => if column == "name"@ {
            Some(SortKeyView::Text(p.name@))
        } else if column == "size"@ {
            Some(SortKeyView::Number(p.installed_size))
        } else if column == "reason"@ {
            Some(SortKeyView::Text(reason_name(p.reason)))
        } else {
            None
        },
        None => None,
    }
}

/// The keys of the packages at the indices `indices`, where the list is
/// sorted.
pub open spec fn package_keys(
    packages: Seq<LocalPackage>,
    indices: Seq<usize>,
    sort_by: Option<Seq<char>>,
) -> Option<Seq<SortKeyView>> {
    if sort_by matches Some(column) && (column == "name"@ || column == "size"@ || column
        == "reason"@) {
        Some(Seq::new(indices.len(), |i: int| package_key(packages[indices[i] as int], sort_by)->0))
    } else {
        None
    }
}

/// The text that rejects a repository that is not known.
pub open spec fn unknown_repository(filter: Seq<char>, known: Seq<Seq<char>>) -> Seq<char> {
    "Invalid repository '"@ + filter + "'. Valid repositories: "@ + joined(
        known.push("user"@),
        ", "@,
    )
}

/// The content of an optional text.
pub open spec fn opt_view(s: Option<&str>) -> Option<Seq<char>> {
    match s {
        Some(t) => Some(t@),
        None => None,
    }
}

/// The repositories that the packages are listed under.
pub open spec fn repositories_of(packages: Seq<LocalPackage>) -> Seq<Seq<char>> {
    Seq::new(packages.len(), |i: int| repository_of(packages[i]))
}

/// The contents of a list of packages, element by element.
pub open spec fn package_views(v: Seq<Package>) -> Seq<PackageView> {
    Seq::new(v.len(), |i: int| v[i]@)
}

/// The list of installed packages that answers a request, for a given
/// order of the packages listed: the page of them in that order, the
/// totals, and the repositories.
pub open spec fn answers(
    r: PackageListResponse,
    packages: Seq<LocalPackage>,
    c: ListCriteria,
    order: Seq<usize>,
    offset: usize,
    limit: usize,
) -> bool {
    let chosen = listed_indices(packages, c);
    let bounds = page_of(chosen.len(), offset, limit);
    &&& r.total == chosen.len()
    &&& r.total_explicit == scope_count(packages, c, PackageReason::Explicit)
    &&& r.total_dependency == scope_count(packages, c, PackageReason::Depend)
    &&& r.packages@.len() == bounds.1 - bounds.0
    &&& forall|k: int|
        0 <= k < r.packages@.len() ==> (#[trigger] r.packages@[k])@ == told(
            packages[chosen[order[bounds.0 + k] as int] as int],
        )
    &&& distinct_ascending(views(r.repositories@))
    &&& forall|s: Seq<char>|
        views(r.repositories@).contains(s) <==> repositories_of(packages).contains(s)
    &&& r.warnings@.len() == 0
}

/// What the caller is told of the package `p`.
fn tell(p: &LocalPackage) -> (out: Package)
    ensures
        out@ == told(*p),
{
    Package {
        name: p.name.clone(),
        version: p.version.clone(),
        description: p.description.clone(),
        installed_size: p.installed_size,
        install_date: p.install_date,
        reason: String::from_str(reason_to_string(p.reason)),
        repository: p.repository.clone(),
    }
}

/// The reason that the filter `filter` asks for.
fn reason_filter(filter: Option<&str>) -> (r: Option<PackageReason>)
    ensures
        r == reason_asked(opt_view(filter)),
{
    match filter {
        Some(f) => if same_text(f, "explicit") {
            Some(PackageReason::Explicit)
        } else if same_text(f, "dependency") {
            Some(PackageReason::Depend)
        } else {
            None
        },
        None => None,
    }
}

/// Whether two reasons are the same.
fn same_reason(a: PackageReason, b: PackageReason) -> (r: bool)
    ensures
        r == (a == b),
{
    match (a, b) {
        (PackageReason::Explicit, PackageReason::Explicit) => true,
        (PackageReason::Depend, PackageReason::Depend) => true,
        _ => false,
    }
}

/// The key of the package `p` for the column `sort_by`.
fn key_of(p: &LocalPackage, sort_by: Option<&str>) -> (k: Option<SortKey>)
    ensures
        (match k {
            Some(key) => Some(key@),
            None => None,
        }) == package_key(*p, opt_view(sort_by)),
{
    match sort_by {
        Some(column) => if same_text(column, "name") {
            Some(SortKey::Text(p.name.clone()))
        } else if same_text(column, "size") {
            Some(SortKey::Number(p.installed_size))
        } else if same_text(column, "reason") {
            Some(SortKey::Text(String::from_str(reason_to_string(p.reason))))
        } else {
            None
        },
        None => None,
    }
}

/// What a request asks of the list, with its query brought to lower
/// case.
pub open spec fn criteria(
    search: Option<Seq<char>>,
    filter: Option<Seq<char>>,
    repo_filter: Option<Seq<char>>,
) -> ListCriteria {
    ListCriteria {
        query: match search {
            Some(s) => Some(unicode_lowercase(s)),
            None => None,
        },
        reason: reason_asked(filter),
        repository: repo_filter,
    }
}

/// Whether the repository asked for is unknown: it is neither one of the
/// repositories on offer nor `user`.
pub open spec fn repository_unknown(repo_filter: Option<Seq<char>>, known: Seq<Seq<char>>) -> bool {
    repo_filter matches Some(f) && !known.contains(f) && f != "user"@
}

/// Whether the direction asked for is ascending: it is unless it is
/// `desc`.
pub open spec fn ascending_asked(sort_dir: Option<Seq<char>>) -> bool {
    !(sort_dir matches Some(d) && d == "desc"@)
}

/// Whether `r` is the answer to a request: there is an order of the
/// packages listed that is the one asked for, and `r` holds the page of
/// the list in that order, the totals, and the repositories.
pub open spec fn is_answer(
    r: PackageListResponse,
    packages: Seq<LocalPackage>,
    c: ListCriteria,
    sort_by: Option<Seq<char>>,
    ascending: bool,
    offset: usize,
    limit: usize,
) -> bool {
    exists|order: Seq<usize>|
        #![trigger answers(r, packages, c, order, offset, limit)]
        arrangement(
            listed_indices(packages, c).len(),
            package_keys(packages, listed_indices(packages, c), sort_by),
            ascending,
            order,
        ) && answers(r, packages, c, order, offset, limit)
}

/// Lists the installed packages. The repository asked for must be one of
/// the repositories `sync_repos` or `user`, else the request is rejected.
/// Of the packages that the query finds in the repository asked for, those
/// installed for the reason asked for are listed, sorted by the column
/// asked for, in the direction asked for, and the page asked for is
/// given.
pub fn list_installed(
    packages: &Vec<LocalPackage>,
    sync_repos: &Vec<String>,
    offset: usize,
    limit: usize,
    search: Option<&str>,
    filter: Option<&str>,
    repo_filter: Option<&str>,
    sort_by: Option<&str>,
    sort_dir: Option<&str>,
) -> (r: Result<PackageListResponse, String>)
    ensures
        r is Err <==> repository_unknown(opt_view(repo_filter), views(sync_repos@)),
        r matches Err(text) ==> text@ == unknown_repository(
            repo_filter->0@,
            views(sync_repos@),
        ),
        r matches Ok(response) ==> is_answer(
            response,
            packages@,
            criteria(opt_view(search), opt_view(filter), opt_view(repo_filter)),
            opt_view(sort_by),
            ascending_asked(opt_view(sort_dir)),
            offset,
            limit,
        ),
{
    match repo_filter {
        Some(f) => {
            if !holds_text(sync_repos, f) && !same_text(f, "user") {
                let mut known = crate::questions::copy_strings(sync_repos);
                let ghost before = views(known@);
                known.push(String::from_str("user"));
                assert(views(known@) =~= before.push("user"@));
                let list = join(&known, ", ");
                let mut text = concat3("Invalid repository '", f, "'. Valid repositories: ");
                text.append(list.as_str());
                return Err(text);
            }
        },
        None => {},
    }
    let query = lowered_query(search);
    let reason = reason_filter(filter);
    let ghost c = criteria(opt_view(search), opt_view(filter), opt_view(repo_filter));
    let mut chosen: Vec<usize> = Vec::new();
    let mut keys: Vec<SortKey> = Vec::new();
    let mut repos: Vec<String> = Vec::new();
    let mut total_explicit: usize = 0;
    let mut total_dependency: usize = 0;
    let sorted = match sort_by {
        Some(column) => same_text(column, "name") || same_text(column, "size") || same_text(
            column,
            "reason",
        ),
        None => false,
    };
    let mut i: usize = 0;
    assert(packages@.take(0) =~= Seq::<LocalPackage>::empty());
    while i < packages.len()
        invariant
            i <= packages.len(),
            c == criteria(opt_view(search), opt_view(filter), opt_view(repo_filter)),
            c.query == text_of(query),
            c.reason == reason,
            sorted == (package_keys(packages@, chosen@, opt_view(sort_by)) is Some),
            chosen@ == listed_indices(packages@.take(i as int), c),
            forall|j: int| 0 <= j < chosen@.len() ==> (#[trigger] chosen@[j]) < i,
            sorted ==> Some(key_views(keys@)) == package_keys(
                packages@,
                chosen@,
                opt_view(sort_by),
            ),
            total_explicit == scope_count(packages@.take(i as int), c, PackageReason::Explicit),
            total_dependency == scope_count(packages@.take(i as int), c, PackageReason::Depend),
            total_explicit + total_dependency <= i,
            views(repos@) == repositories_of(packages@.take(i as int)),
        decreases packages.len() - i,
    {
        let p = &packages[i];
        let ghost before_chosen = chosen@;
        let ghost before_keys = key_views(keys@);
        let ghost before_repos = views(repos@);
        proof {
            let next = packages@.take(i + 1);
            assert(next.drop_last() =~= packages@.take(i as int));
            assert(next.last() == packages@[i as int]);
        }
        let repo: String = match &p.repository {
            Some(r) => r.clone(),
            None => String::from_str("user"),
        };
        let found = finds(p.name.as_str(), &p.description, &query);
        let in_repo = match repo_filter {
            Some(f) => same_text(repo.as_str(), f),
            None => true,
        };
        repos.push(repo);
        proof {
            assert(views(repos@) =~= before_repos.push(repository_of(*p)));
            assert(repositories_of(packages@.take(i + 1)) =~= before_repos.push(
                repository_of(*p),
            ));
        }
        if found && in_repo {
            match p.reason {
                PackageReason::Explicit => {
                    total_explicit += 1;
                },
                PackageReason::Depend => {
                    total_dependency += 1;
                },
            }
            let wanted = match reason {
                Some(r) => same_reason(p.reason, r),
                None => true,
            };
            if wanted {
                chosen.push(i);
                match key_of(p, sort_by) {
                    Some(key) => {
                        keys.push(key);
                        proof {
                            assert(key_views(keys@) =~= before_keys.push(key@));
                        }
                    },
                    None => {},
                }
            }
        }
        proof {
            if sorted {
                let want = package_keys(packages@, chosen@, opt_view(sort_by))->0;
                assert(key_views(keys@) =~= want) by {
                    assert forall|j: int| 0 <= j < want.len() implies key_views(keys@)[j]
                        == want[j] by {
                        if j < before_keys.len() {
                            assert(key_views(keys@)[j] == before_keys[j]);
                            assert(chosen@[j] == before_chosen[j]);
                        }
                    }
                }
            }
        }
        i += 1;
    }
    assert(packages@.take(packages@.len() as int) =~= packages@);
    let ascending = is_ascending(sort_dir);
    let count = chosen.len();
    let ghost key_spec = package_keys(packages@, chosen@, opt_view(sort_by));
    let arranged_by = if sorted {
        assert(key_views(keys@).len() == keys@.len());
        Some(keys)
    } else {
        None
    };
    assert(keys_of(arranged_by) == key_spec);
    let page = arrange(count, arranged_by, ascending, offset, limit);
    let ghost order = choose|order: Seq<usize>|
        #![trigger arrangement(count as nat, key_spec, ascending, order)]
        arrangement(count as nat, key_spec, ascending, order) && page@ == order.subrange(
            page_of(count as nat, offset, limit).0,
            page_of(count as nat, offset, limit).1,
        );
    let ghost bounds = page_of(count as nat, offset, limit);
    let mut shown: Vec<Package> = Vec::new();
    let mut k: usize = 0;
    while k < page.len()
        invariant
            k <= page.len(),
            shown@.len() == k,
            forall|j: int| 0 <= j < page@.len() ==> (#[trigger] page@[j]) < chosen@.len(),
            forall|j: int| 0 <= j < chosen@.len() ==> (#[trigger] chosen@[j]) < packages@.len(),
            forall|j: int|
                0 <= j < k ==> (#[trigger] shown@[j])@ == told(
                    packages@[chosen@[page@[j] as int] as int],
                ),
        decreases page.len() - k,
    {
        let at = chosen[page[k]];
        shown.push(tell(&packages[at]));
        k += 1;
    }
    let repositories = sorted_distinct(&repos);
    let response = PackageListResponse {
        packages: shown,
        total: count,
        total_explicit,
        total_dependency,
        repositories,
        warnings: Vec::new(),
    };
    proof {
        assert forall|j: int| 0 <= j < response.packages@.len() implies (
        #[trigger] response.packages@[j])@ == told(
            packages@[chosen@[order[bounds.0 + j] as int] as int],
        ) by {
            assert(page@[j] == order[bounds.0 + j]);
        }
        assert(chosen@ == listed_indices(packages@, c));
        assert(response.packages@.len() == bounds.1 - bounds.0);
        assert(answers(response, packages@, c, order, offset, limit));
        assert(arrangement(
            listed_indices(packages@, c).len(),
            package_keys(packages@, listed_indices(packages@, c), opt_view(sort_by)),
            ascending,
            order,
        ));
        assert(is_answer(response, packages@, c, opt_view(sort_by), ascending, offset, limit));
    }
    Ok(response)
}

/// A package on offer that is a candidate for an update: what is
/// installed, what is offered, and how the two versions compare.
#[derive(Debug, Clone, PartialEq, Eq)]
pub struct UpdateCandidate {
    pub update: UpdateInfo,
    /// Whether the version offered is newer than the version installed.
    pub is_newer: bool,
}

/// The updates among the candidates, in the order given: the offers that
/// are newer than what is installed.
pub open spec fn updates_among(candidates: Seq<UpdateCandidate>) -> Seq<UpdateInfo>
    decreases candidates.len(),
{
    if candidates.len() == 0 {
        Seq::empty()
    } else {
        let before = updates_among(candidates.drop_last());
        if candidates.last().is_newer {
            before.push(candidates.last().update)
        } else {
            before
        }
    }
}

/// The available updates: of the installed packages that a repository
/// offers, those that it offers in a newer version.
pub fn find_available_updates(candidates: Vec<UpdateCandidate>) -> (updates: Vec<UpdateInfo>)
    ensures
        updates@ == updates_among(candidates@),
{
    let ghost all = candidates@;
    let mut updates: Vec<UpdateInfo> = Vec::new();
    assert(all.take(0) =~= Seq::<UpdateCandidate>::empty());
    for candidate in it: candidates
        invariant
            it.seq() == all,
            updates@ == updates_among(all.take(it.index() as int)),
    {
        proof {
            let next = all.take(it.index() + 1);
            assert(next.drop_last() =~= all.take(it.index() as int));
            assert(next.last() == candidate);
        }
        if candidate.is_newer {
            updates.push(candidate.update);
        }
    }
    assert(all.take(all.len() as int) =~= all);
    updates
}

/// For each installed package the offer that counts: the first of its
/// offers, which are given in the order of the repositories. A package
/// that no repository offers has none.
pub open spec fn first_offers(offers: Seq<Vec<UpdateCandidate>>) -> Seq<UpdateCandidate>
    decreases offers.len(),
{
    if offers.len() == 0 {
        Seq::empty()
    } else {
        let before = first_offers(offers.drop_last());
        if offers.last()@.len() > 0 {
            before.push(offers.last()@[0])
        } else {
            before
        }
    }
}

/// Picks for each installed package the offer that counts. `offers` holds
/// one list for each installed package, in the order of the packages: what
/// each repository that carries the package offers, in the order of the
/// repositories. The repository that comes first decides: a newer version
/// further down is not looked at.
pub fn update_candidates(offers: Vec<Vec<UpdateCandidate>>) -> (candidates: Vec<UpdateCandidate>)
    ensures
        candidates@ == first_offers(offers@),
{
    let ghost all = offers@;
    let mut candidates: Vec<UpdateCandidate> = Vec::new();
    assert(all.take(0) =~= Seq::<Vec<UpdateCandidate>>::empty());
    for list in it: offers
        invariant
            it.seq() == all,
            candidates@ == first_offers(all.take(it.index() as int)),
    {
        proof {
            let next = all.take(it.index() + 1);
            assert(next.drop_last() =~= all.take(it.index() as int));
            assert(next.last() == list);
        }
        let mut rest = list;
        if rest.len() > 0 {
            let first = rest.swap_remove(0);
            candidates.push(first);
        }
    }
    assert(all.take(all.len() as int) =~= all);
    candidates
}

/// The answer to the question which updates there are.
#[derive(Debug, Clone, PartialEq, Eq)]
pub struct UpdatesResponse {
    pub updates: Vec<UpdateInfo>,
    pub warnings: Vec<String>,
}

/// Reports the available updates among the candidates, in the order
/// given. There is nothing to warn of.
pub fn check_updates(candidates: Vec<UpdateCandidate>) -> (r: UpdatesResponse)
    ensures
        r.updates@ == updates_among(candidates@),
        r.warnings@.len() == 0,
{
    UpdatesResponse { updates: find_available_updates(candidates), warnings: Vec::new() }
}

/// All that is told of an installed package.
#[derive(Debug, Clone, PartialEq, Eq)]
pub struct PackageDetails {
    pub name: String,
    pub version: String,
    pub description: Option<String>,
    pub url: Option<String>,
    pub licenses: Vec<String>,
    pub groups: Vec<String>,
    pub provides: Vec<String>,
    pub depends: Vec<String>,
    pub optdepends: Vec<String>,
    pub conflicts: Vec<String>,
    pub replaces: Vec<String>,
    pub installed_size: i64,
    pub packager: Option<String>,
    pub architecture: Option<String>,
    pub build_date: i64,
    pub install_date: Option<i64>,
    pub reason: String,
    pub validation: Vec<String>,
    pub repository: Option<String>,
}

/// All that is told of a package that a repository offers.
#[derive(Debug, Clone, PartialEq, Eq)]
pub struct SyncPackageDetails {
    pub name: String,
    pub version: String,
    pub description: Option<String>,
    pub url: Option<String>,
    pub licenses: Vec<String>,
    pub groups: Vec<String>,
    pub provides: Vec<String>,
    pub depends: Vec<String>,
    pub optdepends: Vec<String>,
    pub conflicts: Vec<String>,
    pub replaces: Vec<String>,
    pub download_size: i64,
    pub installed_size: i64,
    pub packager: Option<String>,
    pub architecture: Option<String>,
    pub build_date: i64,
    pub repository: String,
}

/// The text that reports an installed package that is not there.
pub open spec fn not_installed_message(name: Seq<char>) -> Seq<char> {
    "Package '"@ + name + "' not found"@
}

/// The text that reports a package that no repository asked offers.
pub open spec fn not_offered_message(name: Seq<char>) -> Seq<char> {
    "Package '"@ + name + "' not found in sync databases"@
}

/// The position, from `from` on, of the first installed package with the
/// name `name`; the length of the list where there is none.
pub open spec fn first_installed(packages: Seq<PackageDetails>, name: Seq<char>, from: int) -> int
    decreases packages.len() - from,
{
    if from < 0 || from >= packages.len() {
        packages.len() as int
    } else if packages[from].name@ == name {
        from
    } else {
        first_installed(packages, name, from + 1)
    }
}

/// Whether the package `p` is the package `name` of the repository asked
/// for, or of any repository where none is asked for.
pub open spec fn is_offer(p: SyncPackageDetails, name: Seq<char>, repo: Option<Seq<char>>) -> bool {
    p.name@ == name && match repo {
        Some(r) => p.repository@ == r,
        None => true,
    }
}

/// The position, from `from` on, of the first offer of the package `name`
/// that counts; the length of the list where there is none.
pub open spec fn first_offer(
    packages: Seq<SyncPackageDetails>,
    name: Seq<char>,
    repo: Option<Seq<char>>,
    from: int,
) -> int
    decreases packages.len() - from,
{
    if from < 0 || from >= packages.len() {
        packages.len() as int
    } else if is_offer(packages[from], name, repo) {
        from
    } else {
        first_offer(packages, name, repo, from + 1)
    }
}

/// The details of the installed package `name`: the first of the packages
/// given that has the name. A name that none of them has is reported as
/// not found.
pub fn local_package_info(packages: Vec<PackageDetails>, name: &str) -> (r: Result<
    PackageDetails,
    String,
>)
    ensures
        ({
            let at = first_installed(packages@, name@, 0);
            if at < packages@.len() {
                r == Ok::<PackageDetails, String>(packages@[at])
            } else {
                r matches Err(text) && text@ == not_installed_message(name@)
            }
        }),
{
    let mut rest = packages;
    let mut i: usize = 0;
    while i < rest.len()
        invariant
            i <= rest.len(),
            rest@ == packages@,
            first_installed(packages@, name@, 0) == first_installed(packages@, name@, i as int),
        decreases rest.len() - i,
    {
        if same_text(rest[i].name.as_str(), name) {
            return Ok(rest.remove(i));
        }
        i += 1;
    }
    Err(concat3("Package '", name, "' not found"))
}

/// The details of the package `name` as the repositories offer it. The
/// offers are given in the order of the repositories. With a repository
/// asked for, the offer of that repository is given; with none, the first
/// offer. Where no offer counts, the package is reported as not found.
pub fn sync_package_info(packages: Vec<SyncPackageDetails>, name: &str, repo: Option<&str>) -> (r:
    Result<SyncPackageDetails, String>)
    ensures
        ({
            let at = first_offer(packages@, name@, opt_view(repo), 0);
            if at < packages@.len() {
                r == Ok::<SyncPackageDetails, String>(packages@[at])
            } else {
                r matches Err(text) && text@ == not_offered_message(name@)
            }
        }),
{
    let mut rest = packages;
    let mut i: usize = 0;
    while i < rest.len()
        invariant
            i <= rest.len(),
            rest@ == packages@,
            first_offer(packages@, name@, opt_view(repo), 0) == first_offer(
                packages@,
                name@,
                opt_view(repo),
                i as int,
            ),
        decreases rest.len() - i,
    {
        let wanted = match repo {
            Some(r) => same_text(rest[i].repository.as_str(), r),
            None => true,
        };
        if wanted && same_text(rest[i].name.as_str(), name) {
            return Ok(rest.remove(i));
        }
        i += 1;
    }
    Err(concat3("Package '", name, "' not found in sync databases"))
}

/// A package on offer as a repository has it, with the version that is
/// installed, where the package is installed.
#[derive(Debug, Clone, PartialEq, Eq)]
pub struct SyncPackage {
    pub name: String,
    pub version: String,
    pub description: Option<String>,
    pub repository: String,
    pub installed_version: Option<String>,
}

/// A package on offer as the caller is told of it.
#[derive(Debug, Clone, PartialEq, Eq)]
pub struct SearchResult {
    pub name: String,
    pub version: String,
    pub description: Option<String>,
    pub repository: String,
    pub installed: bool,
    pub installed_version: Option<String>,
}

/// The mathematical content of a [`SearchResult`].
pub struct SearchResultView {
    pub name: Seq<char>,
    pub version: Seq<char>,
    pub description: Option<Seq<char>>,
    pub repository: Seq<char>,
    pub installed: bool,
    pub installed_version: Option<Seq<char>>,
}

impl View for SearchResult {
    type V = SearchResultView;

    open spec fn view(&self) -> SearchResultView {
        SearchResultView {
            name: self.name@,
            version: self.version@,
            description: text_of(self.description),
            repository: self.repository@,
            installed: self.installed,
            installed_version: text_of(self.installed_version),
        }
    }
}

/// What the caller is told of a package on offer.
pub open spec fn offered(p: SyncPackage) -> SearchResultView {
    SearchResultView {
        name: p.name@,
        version: p.version@,
        description: text_of(p.description),
        repository: p.repository@,
        installed: p.installed_version is Some,
        installed_version: text_of(p.installed_version),
    }
}

/// The packages found as the caller is told of them.
#[derive(Debug, Clone, PartialEq, Eq)]
pub struct SearchResponse {
    pub results: Vec<SearchResult>,
    pub total: usize,
    pub total_installed: usize,
    pub total_not_installed: usize,
    pub repositories: Vec<String>,
}

/// Whether the query finds the package.
pub open spec fn is_hit(p: SyncPackage, query: Seq<char>) -> bool {
    found_by(p.name@, text_of(p.description), Some(unicode_lowercase(query)))
}

/// Whether a package is among the results: the query finds it, and it is
/// installed or not as asked.
pub open spec fn is_result(p: SyncPackage, query: Seq<char>, installed: Option<bool>) -> bool {
    &&& is_hit(p, query)
    &&& (installed matches Some(wanted) ==> (p.installed_version is Some) == wanted)
}

/// The indices of the results, in the order given.
pub open spec fn result_indices(
    packages: Seq<SyncPackage>,
    query: Seq<char>,
    installed: Option<bool>,
) -> Seq<usize>
    decreases packages.len(),
{
    if packages.len() == 0 {
        Seq::empty()
    } else {
        let before = result_indices(packages.drop_last(), query, installed);
        if is_result(packages.last(), query, installed) {
            before.push((packages.len() - 1) as usize)
        } else {
            before
        }
    }
}

/// How many of the packages that the query finds are installed, or are
/// not.
pub open spec fn hit_count(packages: Seq<SyncPackage>, query: Seq<char>, installed: bool) -> nat
    decreases packages.len(),
{
    if packages.len() == 0 {
        0
    } else {
        hit_count(packages.drop_last(), query, installed) + (if is_hit(packages.last(), query)
            && (packages.last().installed_version is Some) == installed {
            1nat
        } else {
            0nat
        })
    }
}

/// The repositories of the packages that the query finds, in the order
/// given.
pub open spec fn hit_repositories(packages: Seq<SyncPackage>, query: Seq<char>) -> Seq<Seq<char>>
    decreases packages.len(),
{
    if packages.len() == 0 {
        Seq::empty()
    } else {
        let before = hit_repositories(packages.drop_last(), query);
        if is_hit(packages.last(), query) {
            before.push(packages.last().repository@)
        } else {
            before
        }
    }
}

/// The key by which a package on offer is ranked, for the column asked
/// for, where that is one of the three. A package that is not installed
/// ranks below one that is.
pub open spec fn result_key(p: SyncPackage, sort_by: Option<Seq<char>>) -> Option<SortKeyView> {
    match sort_by {
        Some(column) => if column == "name"@ {
            Some(SortKeyView::Text(p.name@))
        } else if column == "repository"@ {
            Some(SortKeyView::Text(p.repository@))
        } else if column == "status"@ {
            Some(
                SortKeyView::Number(
                    if p.installed_version is Some {
                        1
                    } else {
                        0
                    },
                ),
            )
        } else {
            None
        },
        None => None,
    }
}

/// The keys of the packages at the indices `indices`, where the results
/// are sorted.
pub open spec fn result_keys(
    packages: Seq<SyncPackage>,
    indices: Seq<usize>,
    sort_by: Option<Seq<char>>,
) -> Option<Seq<SortKeyView>> {
    if sort_by matches Some(column) && (column == "name"@ || column == "repository"@ || column
        == "status"@) {
        Some(Seq::new(indices.len(), |i: int| result_key(packages[indices[i] as int], sort_by)->0))
    } else {
        None
    }
}

/// The results that answer a search, for a given order of the results:
/// the page of them in that order, the totals, and the repositories.
pub open spec fn search_answers(
    r: SearchResponse,
    packages: Seq<SyncPackage>,
    query: Seq<char>,
    installed: Option<bool>,
    order: Seq<usize>,
    offset: usize,
    limit: usize,
) -> bool {
    let chosen = result_indices(packages, query, installed);
    let bounds = page_of(chosen.len(), offset, limit);
    &&& r.total == chosen.len()
    &&& r.total_installed == hit_count(packages, query, true)
    &&& r.total_not_installed == hit_count(packages, query, false)
    &&& r.results@.len() == bounds.1 - bounds.0
    &&& forall|k: int|
        0 <= k < r.results@.len() ==> (#[trigger] r.results@[k])@ == offered(
            packages[chosen[order[bounds.0 + k] as int] as int],
        )
    &&& distinct_ascending(views(r.repositories@))
    &&& forall|s: Seq<char>|
        views(r.repositories@).contains(s) <==> hit_repositories(packages, query).contains(s)
}

/// Whether `r` is the answer to a search: there is an order of the results
/// that is the one asked for, and `r` holds the page of the results in
/// that order, the totals, and the repositories.
pub open spec fn is_search_answer(
    r: SearchResponse,
    packages: Seq<SyncPackage>,
    query: Seq<char>,
    installed: Option<bool>,
    sort_by: Option<Seq<char>>,
    ascending: bool,
    offset: usize,
    limit: usize,
) -> bool {
    exists|order: Seq<usize>|
        #![trigger search_answers(r, packages, query, installed, order, offset, limit)]
        arrangement(
            result_indices(packages, query, installed).len(),
            result_keys(packages, result_indices(packages, query, installed), sort_by),
            ascending,
            order,
        ) && search_answers(r, packages, query, installed, order, offset, limit)
}

/// What the caller is told of the package `p`.
fn offer(p: &SyncPackage) -> (out: SearchResult)
    ensures
        out@ == offered(*p),
{
    SearchResult {
        name: p.name.clone(),
        version: p.version.clone(),
        description: p.description.clone(),
        repository: p.repository.clone(),
        installed: p.installed_version.is_some(),
        installed_version: p.installed_version.clone(),
    }
}

/// The key of the package `p` for the column `sort_by`.
fn result_key_of(p: &SyncPackage, sort_by: Option<&str>) -> (k: Option<SortKey>)
    ensures
        (match k {
            Some(key) => Some(key@),
            None => None,
        }) == result_key(*p, opt_view(sort_by)),
{
    match sort_by {
        Some(column) => if same_text(column, "name") {
            Some(SortKey::Text(p.name.clone()))
        } else if same_text(column, "repository") {
            Some(SortKey::Text(p.repository.clone()))
        } else if same_text(column, "status") {
            Some(
                SortKey::Number(
                    if p.installed_version.is_some() {
                        1
                    } else {
                        0
                    },
                ),
            )
        } else {
            None
        },
        None => None,
    }
}

/// Searches the packages on offer. A package is found where its name or
/// its description holds the query, without regard to case. Of the
/// packages found, those that are installed, or are not, as asked, are the
/// results; they are sorted by the column asked for, in the direction
/// asked for, and the page asked for is given.
pub fn search(
    packages: &Vec<SyncPackage>,
    query: &str,
    offset: usize,
    limit: usize,
    installed_filter: Option<bool>,
    sort_by: Option<&str>,
    sort_dir: Option<&str>,
) -> (r: SearchResponse)
    ensures
        is_search_answer(
            r,
            packages@,
            query@,
            installed_filter,
            opt_view(sort_by),
            ascending_asked(opt_view(sort_dir)),
            offset,
            limit,
        ),
{
    let lowered = Some(to_lowercase(query));
    let mut chosen: Vec<usize> = Vec::new();
    let mut keys: Vec<SortKey> = Vec::new();
    let mut repos: Vec<String> = Vec::new();
    let mut total_installed: usize = 0;
    let mut total_not_installed: usize = 0;
    let sorted = match sort_by {
        Some(column) => same_text(column, "name") || same_text(column, "repository") || same_text(
            column,
            "status",
        ),
        None => false,
    };
    let mut i: usize = 0;
    assert(packages@.take(0) =~= Seq::<SyncPackage>::empty());
    assert(views(repos@) =~= Seq::<Seq<char>>::empty());
    while i < packages.len()
        invariant
            i <= packages.len(),
            text_of(lowered) == Some(unicode_lowercase(query@)),
            sorted == (result_keys(packages@, chosen@, opt_view(sort_by)) is Some),
            chosen@ == result_indices(packages@.take(i as int), query@, installed_filter),
            forall|j: int| 0 <= j < chosen@.len() ==> (#[trigger] chosen@[j]) < i,
            sorted ==> Some(key_views(keys@)) == result_keys(packages@, chosen@, opt_view(sort_by)),
            total_installed == hit_count(packages@.take(i as int), query@, true),
            total_not_installed == hit_count(packages@.take(i as int), query@, false),
            total_installed + total_not_installed <= i,
            views(repos@) == hit_repositories(packages@.take(i as int), query@),
        decreases packages.len() - i,
    {
        let p = &packages[i];
        let ghost before_chosen = chosen@;
        let ghost before_keys = key_views(keys@);
        let ghost before_repos = views(repos@);
        proof {
            let next = packages@.take(i + 1);
            assert(next.drop_last() =~= packages@.take(i as int));
            assert(next.last() == packages@[i as int]);
        }
        if finds(p.name.as_str(), &p.description, &lowered) {
            repos.push(p.repository.clone());
            proof {
                assert(views(repos@) =~= before_repos.push(p.repository@));
            }
            let installed = p.installed_version.is_some();
            if installed {
                total_installed += 1;
            } else {
                total_not_installed += 1;
            }
            let wanted = match installed_filter {
                Some(f) => installed == f,
                None => true,
            };
            if wanted {
                chosen.push(i);
                match result_key_of(p, sort_by) {
                    Some(key) => {
                        keys.push(key);
                        proof {
                            assert(key_views(keys@) =~= before_keys.push(key@));
                        }
                    },
                    None => {},
                }
            }
        }
        proof {
            if sorted {
                let want = result_keys(packages@, chosen@, opt_view(sort_by))->0;
                assert(key_views(keys@) =~= want) by {
                    assert forall|j: int| 0 <= j < want.len() implies key_views(keys@)[j]
                        == want[j] by {
                        if j < before_keys.len() {
                            assert(key_views(keys@)[j] == before_keys[j]);
                            assert(chosen@[j] == before_chosen[j]);
                        }
                    }
                }
            }
        }
        i += 1;
    }
    assert(packages@.take(packages@.len() as int) =~= packages@);
    let ascending = is_ascending(sort_dir);
    let count = chosen.len();
    let ghost key_spec = result_keys(packages@, chosen@, opt_view(sort_by));
    let arranged_by = if sorted {
        assert(key_views(keys@).len() == keys@.len());
        Some(keys)
    } else {
        None
    };
    assert(keys_of(arranged_by) == key_spec);
    let page = arrange(count, arranged_by, ascending, offset, limit);
    let ghost order = choose|order: Seq<usize>|
        #![trigger arrangement(count as nat, key_spec, ascending, order)]
        arrangement(count as nat, key_spec, ascending, order) && page@ == order.subrange(
            page_of(count as nat, offset, limit).0,
            page_of(count as nat, offset, limit).1,
        );
    let ghost bounds = page_of(count as nat, offset, limit);
    let mut results: Vec<SearchResult> = Vec::new();
    let mut k: usize = 0;
    while k < page.len()
        invariant
            k <= page.len(),
            results@.len() == k,
            forall|j: int| 0 <= j < page@.len() ==> (#[trigger] page@[j]) < chosen@.len(),
            forall|j: int| 0 <= j < chosen@.len() ==> (#[trigger] chosen@[j]) < packages@.len(),
            forall|j: int|
                0 <= j < k ==> (#[trigger] results@[j])@ == offered(
                    packages@[chosen@[page@[j] as int] as int],
                ),
        decreases page.len() - k,
    {
        let at = chosen[page[k]];
        results.push(offer(&packages[at]));
        k += 1;
    }
    let repositories = sorted_distinct(&repos);
    let response = SearchResponse {
        results,
        total: count,
        total_installed,
        total_not_installed,
        repositories,
    };
    proof {
        assert forall|j: int| 0 <= j < response.results@.len() implies (
        #[trigger] response.results@[j])@ == offered(
            packages@[chosen@[order[bounds.0 + j] as int] as int],
        ) by {
            assert(page@[j] == order[bounds.0 + j]);
        }
        assert(search_answers(response, packages@, query@, installed_filter, order, offset, limit));
        assert(arrangement(
            result_indices(packages@, query@, installed_filter).len(),
            result_keys(
                packages@,
                result_indices(packages@, query@, installed_filter),
                opt_view(sort_by),
            ),
            ascending,
            order,
        ));
    }
    response
}

/// An installed package with how many installed packages need it and how
/// many can use it.
#[derive(Debug, Clone, PartialEq, Eq)]
pub struct OrphanCandidate {
    pub package: LocalPackage,
    pub required_by: usize,
    pub optional_for: usize,
}

/// An orphan as the caller is told of it.
#[derive(Debug, Clone, PartialEq, Eq)]
pub struct OrphanPackage {
    pub name: String,
    pub version: String,
    pub description: Option<String>,
    pub installed_size: i64,
    pub install_date: Option<i64>,
    pub repository: Option<String>,
}

/// The orphans as the caller is told of them.
#[derive(Debug, Clone, PartialEq, Eq)]
pub struct OrphanResponse {
    pub orphans: Vec<OrphanPackage>,
    pub total_size: i64,
}

/// Whether a candidate is an orphan: it was installed as a dependency, and
/// no installed package needs it or can use it.
pub open spec fn orphan_candidate(c: OrphanCandidate) -> bool {
    c.package.reason == PackageReason::Depend && c.required_by == 0 && c.optional_for == 0
}

/// The packages of the orphans among the candidates, in the order given.
pub open spec fn orphans_among(candidates: Seq<OrphanCandidate>) -> Seq<LocalPackage>
    decreases candidates.len(),
{
    if candidates.len() == 0 {
        Seq::empty()
    } else {
        let before = orphans_among(candidates.drop_last());
        if orphan_candidate(candidates.last()) {
            before.push(candidates.last().package)
        } else {
            before
        }
    }
}

/// The installed size of the packages together, each sum kept within
/// bounds.
pub open spec fn size_of_all(packages: Seq<LocalPackage>) -> i64
    decreases packages.len(),
{
    if packages.len() == 0 {
        0
    } else {
        clamped_sum(size_of_all(packages.drop_last()), packages.last().installed_size)
    }
}

/// What the caller is told of an orphan: the name, the version, the
/// description, the size, the time of installation and the repository.
pub open spec fn orphan_told(o: OrphanPackage, p: LocalPackage) -> bool {
    &&& o.name@ == p.name@
    &&& o.version@ == p.version@
    &&& text_of(o.description) == text_of(p.description)
    &&& o.installed_size == p.installed_size
    &&& o.install_date == p.install_date
    &&& text_of(o.repository) == text_of(p.repository)
}

/// Lists the orphans among the installed packages, in the order given,
/// with the size that their removal frees.
pub fn list_orphans(candidates: &Vec<OrphanCandidate>) -> (r: OrphanResponse)
    ensures
        r.orphans@.len() == orphans_among(candidates@).len(),
        forall|k: int|
            0 <= k < r.orphans@.len() ==> orphan_told(
                #[trigger] r.orphans@[k],
                orphans_among(candidates@)[k],
            ),
        r.total_size == size_of_all(orphans_among(candidates@)),
{
    let mut orphans: Vec<OrphanPackage> = Vec::new();
    let mut total_size: i64 = 0;
    let mut i: usize = 0;
    assert(candidates@.take(0) =~= Seq::<OrphanCandidate>::empty());
    while i < candidates.len()
        invariant
            i <= candidates.len(),
            orphans@.len() == orphans_among(candidates@.take(i as int)).len(),
            forall|k: int|
                0 <= k < orphans@.len() ==> orphan_told(
                    #[trigger] orphans@[k],
                    orphans_among(candidates@.take(i as int))[k],
                ),
            total_size == size_of_all(orphans_among(candidates@.take(i as int))),
        decreases candidates.len() - i,
    {
        let c = &candidates[i];
        proof {
            let next = candidates@.take(i + 1);
            assert(next.drop_last() =~= candidates@.take(i as int));
            assert(next.last() == candidates@[i as int]);
        }
        let dependency = match c.package.reason {
            PackageReason::Depend => true,
            PackageReason::Explicit => false,
        };
        if dependency && c.required_by == 0 && c.optional_for == 0 {
            let p = &c.package;
            proof {
                let found = orphans_among(candidates@.take(i + 1));
                assert(found.drop_last() =~= orphans_among(candidates@.take(i as int)));
            }
            orphans.push(
                OrphanPackage {
                    name: p.name.clone(),
                    version: p.version.clone(),
                    description: p.description.clone(),
                    installed_size: p.installed_size,
                    install_date: p.install_date,
                    repository: p.repository.clone(),
                },
            );
            total_size = add_sizes(total_size, p.installed_size);
        }
        i += 1;
    }
    assert(candidates@.take(candidates@.len() as int) =~= candidates@);
    OrphanResponse { orphans, total_size }
}

} // verus!
