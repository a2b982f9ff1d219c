//! Building blocks of dependency resolution: package references, set
//! relations, incompatibility causes, resolution modes and options, remote
//! package records, statistics and errors; and the decisions of the
//! streaming parallel fetch and of breadth-first transitive discovery,
//! which find the packages to resolve.
use vstd::prelude::*;
use core::time::Duration;
use crate::plugin::config::{duration_from_secs, duration_of_secs};
use crate::repository::types::Stability;
use crate::text::{chars_of, chars_eq, join_strings, join_with, owned, push_all, push_str, starts_with, starts_with_chars, string_of, views};
use crate::resolution::contains_name;
use crate::plugin::api::opt_view;

verus! {

/// Whether a requirement names the platform rather than a package: `php`,
/// `php-*`, `ext-*`, `lib-*`, `composer`, `composer-plugin-api` and
/// `composer-runtime-api`.
pub open spec fn platform_name(name: Seq<char>) -> bool {
    ||| name == "php"@
    ||| starts_with(name, "php-"@)
    ||| starts_with(name, "ext-"@)
    ||| starts_with(name, "lib-"@)
    ||| name == "composer"@
    ||| name == "composer-plugin-api"@
    ||| name == "composer-runtime-api"@
}

/// The platform requirements are exactly `php`, `composer`,
/// `composer-plugin-api`, `composer-runtime-api` and every name that starts
/// with `php-`, `ext-` or `lib-`: each such name is one (whatever follows
/// the prefix), and any platform name has one of these forms.
pub proof fn lemma_platform_names(name: Seq<char>, rest: Seq<char>)
    ensures
        platform_name("php"@),
        platform_name("composer"@),
        platform_name("composer-plugin-api"@),
        platform_name("composer-runtime-api"@),
        platform_name("php-"@ + rest),
        platform_name("ext-"@ + rest),
        platform_name("lib-"@ + rest),
        platform_name(name) ==> (name == "php"@ || name == "composer"@ || name == "composer-plugin-api"@
            || name == "composer-runtime-api"@ || name == "php-"@ + name.subrange(4, name.len() as int)
            || name == "ext-"@ + name.subrange(4, name.len() as int) || name == "lib-"@ + name.subrange(
            4,
            name.len() as int,
        )),
{
    reveal_strlit("php-");
    reveal_strlit("ext-");
    reveal_strlit("lib-");
    assert(("php-"@ + rest).subrange(0, 4) =~= "php-"@);
    assert(("ext-"@ + rest).subrange(0, 4) =~= "ext-"@);
    assert(("lib-"@ + rest).subrange(0, 4) =~= "lib-"@);
    if name.len() >= 4 {
        let tail = name.subrange(4, name.len() as int);
        if starts_with(name, "php-"@) {
            assert(name =~= "php-"@ + tail);
        }
        if starts_with(name, "ext-"@) {
            assert(name =~= "ext-"@ + tail);
        }
        if starts_with(name, "lib-"@) {
            assert(name =~= "lib-"@ + tail);
        }
    }
}

fn text_is(s: &[char], lit: &str) -> (r: bool)
    ensures
        r == (s@ == lit@),
{
    let l = chars_of(lit);
    chars_eq(s, l.as_slice())
}

fn has_prefix(s: &[char], lit: &str) -> (r: bool)
    ensures
        r == starts_with(s@, lit@),
{
    let l = chars_of(lit);
    starts_with_chars(s, l.as_slice())
}

/// Check if this is a platform package.
pub fn is_platform_package(name: &str) -> (r: bool)
    ensures
        r == platform_name(name@),
{
    let c = chars_of(name);
    let s = c.as_slice();
    text_is(s, "php") || has_prefix(s, "php-") || has_prefix(s, "ext-") || has_prefix(s, "lib-")
        || text_is(s, "composer") || text_is(s, "composer-plugin-api") || text_is(
        s,
        "composer-runtime-api",
    )
}

/// Unique identifier for a package in the resolution.
#[derive(Debug, Clone, PartialEq, Eq, Hash)]
pub struct PackageRef {
    /// Package name (vendor/name format).
    pub name: String,
    id: u64,
}

impl PackageRef {
    /// The reference's ID.
    pub closed spec fn id_of(&self) -> u64 {
        self.id
    }

    /// The package name.
    pub closed spec fn name_of(&self) -> Seq<char> {
        self.name@
    }

    /// Create a package reference with the next ID of the caller's counter.
    pub fn new(name: &str, id: u64) -> (r: Self)
        ensures
            r.name_of() == name@,
            r.id_of() == id,
    {
        PackageRef { name: owned(name), id }
    }

    /// Get the package name.
    pub fn name(&self) -> (r: &str)
        ensures
            r@ == self.name_of(),
    {
        self.name.as_str()
    }

    /// Get the reference's ID.
    pub fn id(&self) -> (r: u64)
        ensures
            r == self.id_of(),
    {
        self.id
    }
}

/// Relation between two sets.
#[derive(Debug, Clone, Copy, PartialEq, Eq, Structural)]
pub enum SetRelation {
    /// Sets are equal.
    Equal,
    /// First is subset of second.
    Subset,
    /// First is superset of second.
    Superset,
    /// Sets overlap but neither contains the other.
    Overlapping,
    /// Sets are disjoint.
    Disjoint,
}

impl SetRelation {
    /// The relation seen from the other set.
    pub fn flip(&self) -> (r: SetRelation)
        ensures
            r == (match *self {
                SetRelation::Subset => SetRelation::Superset,
                SetRelation::Superset => SetRelation::Subset,
                other => other,
            }),
    {
        match self {
            SetRelation::Subset => SetRelation::Superset,
            SetRelation::Superset => SetRelation::Subset,
            SetRelation::Equal => SetRelation::Equal,
            SetRelation::Overlapping => SetRelation::Overlapping,
            SetRelation::Disjoint => SetRelation::Disjoint,
        }
    }
}

/// Cause of an incompatibility.
#[derive(Debug, Clone, Copy, PartialEq, Eq, Structural)]
pub enum IncompatibilityCause {
    /// Root package dependency.
    Root,
    /// Package dependency.
    Dependency,
    /// No versions match constraint.
    NoVersions,
    /// Package not found in any repository.
    PackageNotFound,
    /// Derived through conflict resolution.
    ConflictResolution { left: u64, right: u64 },
}

/// Resolution mode.
#[derive(Debug, Clone, Copy, PartialEq, Eq, Structural, Hash)]
pub enum ResolutionMode {
    /// Prefer highest versions (default).
    PreferHighest,
    /// Prefer lowest versions (useful for testing).
    PreferLowest,
    /// Prefer stable versions.
    PreferStable,
}

impl Default for ResolutionMode {
    fn default() -> (r: Self)
        ensures
            r == ResolutionMode::PreferHighest,
    {
        ResolutionMode::PreferHighest
    }
}

/// Resolution options.
#[derive(Debug, Clone, Copy, PartialEq, Eq)]
pub struct ResolutionOptions {
    /// Resolution mode.
    pub mode: ResolutionMode,
    /// Minimum stability.
    pub min_stability: Stability,
    /// Include dev dependencies.
    pub include_dev: bool,
    /// Maximum resolution iterations.
    pub max_iterations: u32,
}

impl Default for ResolutionOptions {
    fn default() -> (r: Self)
        ensures
            r == (ResolutionOptions {
                mode: ResolutionMode::PreferHighest,
                min_stability: Stability::Stable,
                include_dev: true,
                max_iterations: 100_000,
            }),
    {
        ResolutionOptions {
            mode: ResolutionMode::PreferHighest,
            min_stability: Stability::Stable,
            include_dev: true,
            max_iterations: 100_000,
        }
    }
}

/// Resolution errors.
#[derive(Debug, Clone)]
pub enum ResolutionError {
    /// Package not found.
    PackageNotFound { name: String },
    /// No versions match constraint.
    NoMatchingVersions { explanation: String },
    /// Conflict detected.
    Conflict { explanation: String },
    /// Too many iterations.
    TooManyIterations,
    /// Circular dependency detected.
    CircularDependency { cycle: Vec<String> },
}

/// The message of a resolution error.
pub open spec fn resolution_error_message(e: ResolutionError) -> Seq<char> {
    match e {
        ResolutionError::PackageNotFound { name } => "package '"@ + name@ + "' not found"@,
        ResolutionError::NoMatchingVersions { explanation } => explanation@,
        ResolutionError::Conflict { explanation } => explanation@,
        ResolutionError::TooManyIterations => "resolution exceeded maximum iterations"@,
        ResolutionError::CircularDependency { cycle } => "circular dependency: "@ + join_with(
            cycle@.map_values(|s: String| s@),
            " -> "@,
        ),
    }
}

impl ResolutionError {
    /// The message of the error.
    pub fn to_string(&self) -> (r: String)
        ensures
            r@ == resolution_error_message(*self),
    {
        let mut out: Vec<char> = Vec::new();
        match self {
            ResolutionError::PackageNotFound { name } => {
                push_str(&mut out, "package '");
                push_str(&mut out, name.as_str());
                push_str(&mut out, "' not found");
            },
            ResolutionError::NoMatchingVersions { explanation } => {
                push_str(&mut out, explanation.as_str());
            },
            ResolutionError::Conflict { explanation } => {
                push_str(&mut out, explanation.as_str());
            },
            ResolutionError::TooManyIterations => {
                push_str(&mut out, "resolution exceeded maximum iterations");
            },
            ResolutionError::CircularDependency { cycle } => {
                push_str(&mut out, "circular dependency: ");
                let sep = chars_of(" -> ");
                let j = join_strings(cycle.as_slice(), sep.as_slice());
                push_all(&mut out, j.as_slice());
            },
        }
        assert(out@ =~= resolution_error_message(*self));
        string_of(out.as_slice())
    }
}

/// Remote package data from repository.
#[derive(Debug, Clone)]
pub struct RemotePackage {
    /// Package name (vendor/name).
    pub name: String,
    /// Version string.
    pub version: String,
    /// Dependencies (require).
    pub require: Vec<(String, String)>,
    /// Dev dependencies (require-dev).
    pub require_dev: Vec<(String, String)>,
    /// Packages this replaces.
    pub replace: Vec<(String, String)>,
    /// Virtual packages this provides.
    pub provide: Vec<(String, String)>,
    /// Packages this conflicts with.
    pub conflict: Vec<(String, String)>,
    /// Distribution URL.
    pub dist_url: Option<String>,
    /// Distribution type (zip, tar).
    pub dist_type: Option<String>,
    /// Distribution checksum.
    pub dist_shasum: Option<String>,
    /// Source URL (git).
    pub source_url: Option<String>,
    /// Source type.
    pub source_type: Option<String>,
    /// Source reference (commit/tag).
    pub source_reference: Option<String>,
}

/// `a + b` modulo 2^64.
pub open spec fn wrapping_sum(a: u64, b: u64) -> u64 {
    ((a as int + b as int) % 0x1_0000_0000_0000_0000int) as u64
}

/// Fast resolver statistics. The counters wrap around at `u64::MAX`.
#[derive(Debug, Clone, Copy, Default, PartialEq, Eq)]
pub struct FastStats {
    pub packages_fetched: u64,
    pub versions_total: u64,
    pub fetch_time_ms: u64,
    pub solver_time_ms: u64,
}

impl FastStats {
    /// Count a fetched package with `versions` versions.
    pub fn record_fetch(&mut self, versions: u64)
        ensures
            final(self).packages_fetched == wrapping_sum(old(self).packages_fetched, 1),
            final(self).versions_total == wrapping_sum(old(self).versions_total, versions),
            final(self).fetch_time_ms == old(self).fetch_time_ms,
            final(self).solver_time_ms == old(self).solver_time_ms,
    {
        self.packages_fetched = self.packages_fetched.wrapping_add(1);
        self.versions_total = self.versions_total.wrapping_add(versions);
    }

    /// Add fetch and solver time.
    pub fn record_time(&mut self, fetch_ms: u64, solver_ms: u64)
        ensures
            final(self).fetch_time_ms == wrapping_sum(old(self).fetch_time_ms, fetch_ms),
            final(self).solver_time_ms == wrapping_sum(old(self).solver_time_ms, solver_ms),
            final(self).packages_fetched == old(self).packages_fetched,
            final(self).versions_total == old(self).versions_total,
    {
        self.fetch_time_ms = self.fetch_time_ms.wrapping_add(fetch_ms);
        self.solver_time_ms = self.solver_time_ms.wrapping_add(solver_ms);
    }
}

/// Fast resolver configuration.
#[derive(Debug, Clone, Copy, PartialEq, Eq)]
pub struct FastConfig {
    pub max_concurrent: usize,
    pub mode: ResolutionMode,
    pub min_stability: Stability,
    pub include_dev: bool,
    pub max_versions: usize,
}

impl Default for FastConfig {
    fn default() -> (r: Self)
        ensures
            r == (FastConfig {
                max_concurrent: 32,
                mode: ResolutionMode::PreferHighest,
                min_stability: Stability::Stable,
                include_dev: true,
                max_versions: 100,
            }),
    {
        FastConfig {
            max_concurrent: 32,
            mode: ResolutionMode::PreferHighest,
            min_stability: Stability::Stable,
            include_dev: true,
            max_versions: 100,
        }
    }
}

/// Turbo resolver statistics. The counters wrap around at `u64::MAX`.
#[derive(Debug, Clone, Copy, Default, PartialEq, Eq)]
pub struct TurboStats {
    pub packages_fetched: u64,
    pub versions_total: u64,
    pub fetch_time_ms: u64,
    pub solver_time_ms: u64,
    pub requests_total: u64,
    pub requests_failed: u64,
}

impl TurboStats {
    /// Count a request and whether it failed.
    pub fn record_request(&mut self, failed: bool)
        ensures
            final(self).requests_total == wrapping_sum(old(self).requests_total, 1),
            final(self).requests_failed == wrapping_sum(
                old(self).requests_failed,
                if failed { 1 } else { 0 },
            ),
            final(self).packages_fetched == old(self).packages_fetched,
            final(self).versions_total == old(self).versions_total,
            final(self).fetch_time_ms == old(self).fetch_time_ms,
            final(self).solver_time_ms == old(self).solver_time_ms,
    {
        self.requests_total = self.requests_total.wrapping_add(1);
        if failed {
            self.requests_failed = self.requests_failed.wrapping_add(1);
        }
    }
}

/// Turbo resolver configuration.
#[derive(Debug, Clone, Copy)]
pub struct TurboConfig {
    /// Max concurrent HTTP requests.
    pub max_concurrent: usize,
    /// Timeout per individual request.
    pub request_timeout: Duration,
    /// Resolution mode.
    pub mode: ResolutionMode,
    /// Minimum stability.
    pub min_stability: Stability,
    /// Include dev dependencies.
    pub include_dev: bool,
}

impl Default for TurboConfig {
    fn default() -> (r: Self)
        ensures
            r.max_concurrent == 32,
            r.request_timeout == duration_of_secs(10),
            r.mode == ResolutionMode::PreferHighest,
            r.min_stability == Stability::Stable,
            r.include_dev,
    {
        TurboConfig {
            max_concurrent: 32,
            request_timeout: duration_from_secs(10),
            mode: ResolutionMode::PreferHighest,
            min_stability: Stability::Stable,
            include_dev: true,
        }
    }
}

/// The names among `names` to queue after `seen`: each one that is no
/// platform requirement and not seen before (or earlier in `names`), in
/// order of first occurrence.
pub open spec fn fresh_names(seen: Seq<Seq<char>>, names: Seq<Seq<char>>) -> Seq<Seq<char>>
    decreases names.len(),
{
    if names.len() == 0 {
        Seq::empty()
    } else {
        let f = fresh_names(seen, names.drop_last());
        let n = names.last();
        if !platform_name(n) && !(seen + f).contains(n) {
            f.push(n)
        } else {
            f
        }
    }
}

/// The fresh names are distinct, unseen, no platform requirements, and
/// each among the given names.
pub proof fn lemma_fresh_names(seen: Seq<Seq<char>>, names: Seq<Seq<char>>)
    ensures
        (seen + fresh_names(seen, names)).no_duplicates() <== seen.no_duplicates(),
        forall|i: int|
            0 <= i < fresh_names(seen, names).len() ==> !seen.contains(#[trigger] fresh_names(seen, names)[i])
                && !platform_name(fresh_names(seen, names)[i]) && names.contains(fresh_names(seen, names)[i]),
        fresh_names(seen, names).no_duplicates(),
    decreases names.len(),
{
    if names.len() > 0 {
        let init = names.drop_last();
        lemma_fresh_names(seen, init);
        let f = fresh_names(seen, init);
        let n = names.last();
        let g = fresh_names(seen, names);
        assert forall|i: int| 0 <= i < g.len() implies !seen.contains(#[trigger] g[i]) && !platform_name(g[i])
            && names.contains(g[i]) by {
            if i < f.len() {
                assert(g[i] == f[i]);
                let j = choose|j: int| 0 <= j < init.len() && init[j] == f[i];
                assert(names[j] == f[i]);
            } else {
                assert(g[i] == n);
                assert(names[names.len() - 1] == n);
                if seen.contains(n) {
                    let j = choose|j: int| 0 <= j < seen.len() && seen[j] == n;
                    assert((seen + f)[j] == n);
                }
            }
        }
        if !platform_name(n) && !(seen + f).contains(n) {
            assert forall|i: int, j: int| 0 <= i < g.len() && 0 <= j < g.len() && i != j implies g[i] != g[j] by {
                if i == f.len() as int && j < f.len() {
                    assert((seen + f)[seen.len() + j] == f[j]);
                } else if j == f.len() as int && i < f.len() {
                    assert((seen + f)[seen.len() + i] == f[i]);
                }
            }
            if seen.no_duplicates() {
                assert(seen + g =~= (seen + f).push(n));
                let sg = seen + g;
                assert forall|i: int, j: int| 0 <= i < sg.len() && 0 <= j < sg.len() && i != j implies sg[i] != sg[j] by {
                    if i == sg.len() - 1 && j < sg.len() - 1 {
                        assert((seen + f)[j] == sg[j]);
                    } else if j == sg.len() - 1 && i < sg.len() - 1 {
                        assert((seen + f)[i] == sg[i]);
                    } else {
                        assert((seen + f)[i] == sg[i]);
                        assert((seen + f)[j] == sg[j]);
                    }
                }
            }
        }
    }
}

/// Appends to `seen` and `pending` the names of `names` that are to be
/// queued (see `fresh_names`).
fn add_fresh(seen: &mut Vec<String>, pending: &mut Vec<String>, names: &[String])
    ensures
        views(final(seen)@) == views(old(seen)@) + fresh_names(views(old(seen)@), views(names@)),
        views(final(pending)@) == views(old(pending)@) + fresh_names(views(old(seen)@), views(names@)),
{
    let ghost seen0 = views(seen@);
    let ghost pending0 = views(pending@);
    let mut i: usize = 0;
    while i < names.len()
        invariant
            i <= names@.len(),
            seen0 == views(old(seen)@),
            pending0 == views(old(pending)@),
            views(seen@) == seen0 + fresh_names(seen0, views(names@.subrange(0, i as int))),
            views(pending@) == pending0 + fresh_names(seen0, views(names@.subrange(0, i as int))),
        decreases names.len() - i,
    {
        let ghost sub = views(names@.subrange(0, i + 1));
        proof {
            assert(sub.drop_last() =~= views(names@.subrange(0, i as int)));
            assert(sub.last() == names@[i as int]@);
        }
        if !is_platform_package(names[i].as_str()) && !contains_name(seen.as_slice(), names[i].as_str()) {
            let ghost s0 = seen@;
            let ghost p0 = pending@;
            seen.push(owned(names[i].as_str()));
            pending.push(owned(names[i].as_str()));
            proof {
                assert(views(seen@) =~= views(s0).push(names@[i as int]@));
                assert(views(pending@) =~= views(p0).push(names@[i as int]@));
            }
        }
        i = i + 1;
    }
    assert(names@.subrange(0, names@.len() as int) =~= names@);
}

/// The names a streaming fetch has seen, the names waiting to be fetched
/// (taken from the end), and the number of requests in flight.
#[derive(Debug)]
pub struct FetchState {
    /// Every name queued so far, in order.
    pub seen: Vec<String>,
    /// Names waiting to be fetched.
    pub pending: Vec<String>,
    /// Requests in flight.
    pub in_flight: usize,
}

/// What happened since the last step of a streaming fetch.
#[derive(Debug)]
pub enum FetchEvent {
    /// The fetch starts: nothing has completed.
    Started,
    /// A request completed: the dependency names of every version of the
    /// package it fetched, or `None` where it failed or yielded no package.
    Completed(Option<Vec<String>>),
}

/// A fetch state is sound: each name is seen once and is no platform
/// requirement, and the pending names are distinct names already seen.
pub open spec fn fetch_sound(seen: Seq<Seq<char>>, pending: Seq<Seq<char>>) -> bool {
    &&& seen.no_duplicates()
    &&& pending.no_duplicates()
    &&& forall|i: int| 0 <= i < pending.len() ==> seen.contains(#[trigger] pending[i])
    &&& forall|i: int| 0 <= i < seen.len() ==> !platform_name(#[trigger] seen[i])
}

/// The last `k` names of `base`, last first.
pub open spec fn taken_from_end(base: Seq<Seq<char>>, k: int) -> Seq<Seq<char>> {
    Seq::new(k as nat, |i: int| base[base.len() - 1 - i])
}

proof fn lemma_sound_after_adding(seen: Seq<Seq<char>>, pending: Seq<Seq<char>>, names: Seq<Seq<char>>)
    requires
        fetch_sound(seen, pending),
    ensures
        fetch_sound(seen + fresh_names(seen, names), pending + fresh_names(seen, names)),
{
    lemma_fresh_names(seen, names);
    let f = fresh_names(seen, names);
    let s2 = seen + f;
    let p2 = pending + f;
    assert forall|i: int| 0 <= i < p2.len() implies s2.contains(#[trigger] p2[i]) by {
        if i < pending.len() {
            let j = choose|j: int| 0 <= j < seen.len() && seen[j] == pending[i];
            assert(s2[j] == p2[i]);
        } else {
            assert(s2[seen.len() + i - pending.len()] == p2[i]);
        }
    }
    assert forall|i: int, j: int| 0 <= i < p2.len() && 0 <= j < p2.len() && i != j implies p2[i] != p2[j] by {
        if i < pending.len() && j >= pending.len() {
            assert(seen.contains(pending[i]));
            assert(!seen.contains(f[j - pending.len()]));
        } else if j < pending.len() && i >= pending.len() {
            assert(seen.contains(pending[j]));
            assert(!seen.contains(f[i - pending.len()]));
        }
    }
    assert forall|i: int| 0 <= i < s2.len() implies !platform_name(#[trigger] s2[i]) by {
        if i >= seen.len() {
            assert(s2[i] == f[i - seen.len()]);
        }
    }
}

impl FetchState {
    /// The state before the first request: the root dependency names, and
    /// the development ones where they are included, queued as
    /// `fresh_names` says; nothing in flight.
    pub fn new(root: &[String], dev: &[String], include_dev: bool) -> (r: Self)
        ensures
            views(r.seen@) == fresh_names(Seq::empty(), views(root@)) + (if include_dev {
                fresh_names(fresh_names(Seq::empty(), views(root@)), views(dev@))
            } else {
                Seq::empty()
            }),
            r.pending@.len() == r.seen@.len(),
            views(r.pending@) == views(r.seen@),
            r.in_flight == 0,
            fetch_sound(views(r.seen@), views(r.pending@)),
    {
        let mut seen: Vec<String> = Vec::new();
        let mut pending: Vec<String> = Vec::new();
        proof {
            assert(views(seen@) =~= Seq::<Seq<char>>::empty());
            assert(views(pending@) =~= Seq::<Seq<char>>::empty());
        }
        add_fresh(&mut seen, &mut pending, root);
        proof {
            assert(views(seen@) =~= fresh_names(Seq::empty(), views(root@)));
            lemma_sound_after_adding(Seq::empty(), Seq::empty(), views(root@));
        }
        let ghost s1 = views(seen@);
        if include_dev {
            add_fresh(&mut seen, &mut pending, dev);
            proof {
                lemma_sound_after_adding(s1, s1, views(dev@));
            }
        } else {
            assert(views(seen@) =~= views(seen@) + Seq::<Seq<char>>::empty());
        }
        FetchState { seen, pending, in_flight: 0 }
    }

    /// Whether the fetch has finished: no request is in flight.
    pub fn is_done(&self) -> (r: bool)
        ensures
            r == (self.in_flight == 0),
    {
        self.in_flight == 0
    }
}

/// One step of the streaming fetch. A completed request leaves the flight,
/// and the new dependency names it found are seen and queued; then names are
/// taken from the end of the queue and launched while fewer than
/// `max_concurrent` requests are in flight. The fetch is done once nothing
/// is in flight after a step; with `max_concurrent > 0` the queue is then
/// empty too.
pub fn fetch_step(state: &mut FetchState, event: FetchEvent, max_concurrent: usize) -> (launch: Vec<String>)
    requires
        event is Completed ==> old(state).in_flight > 0,
    ensures
        ({
            let added = match event {
                FetchEvent::Completed(Some(d)) => fresh_names(views(old(state).seen@), views(d@)),
                _ => Seq::<Seq<char>>::empty(),
            };
            let flying = if event is Completed {
                old(state).in_flight - 1
            } else {
                old(state).in_flight as int
            };
            let base = views(old(state).pending@) + added;
            let k = if flying < max_concurrent {
                if max_concurrent - flying < base.len() {
                    max_concurrent - flying
                } else {
                    base.len() as int
                }
            } else {
                0
            };
            &&& views(final(state).seen@) == views(old(state).seen@) + added
            &&& views(launch@) == taken_from_end(base, k)
            &&& views(final(state).pending@) == base.subrange(0, base.len() - k)
            &&& final(state).in_flight == flying + k
            &&& flying <= max_concurrent ==> final(state).in_flight <= max_concurrent
            &&& final(state).in_flight < max_concurrent ==> final(state).pending@.len() == 0
            &&& fetch_sound(views(old(state).seen@), views(old(state).pending@)) ==> fetch_sound(
                views(final(state).seen@),
                views(final(state).pending@),
            ) && launch@.len() == k && views(launch@).no_duplicates() && forall|i: int|
                0 <= i < launch@.len() ==> views(final(state).seen@).contains(#[trigger] views(launch@)[i])
                    && !views(final(state).pending@).contains(views(launch@)[i])
        }),
{
    let ghost seen0 = views(state.seen@);
    let ghost pending0 = views(state.pending@);
    let ghost added = match &event {
        FetchEvent::Completed(Some(d)) => fresh_names(seen0, views(d@)),
        _ => Seq::<Seq<char>>::empty(),
    };
    let completed = match event {
        FetchEvent::Started => false,
        FetchEvent::Completed(found) => {
            match found {
                Some(deps) => {
                    add_fresh(&mut state.seen, &mut state.pending, deps.as_slice());
                    proof {
                        if fetch_sound(seen0, pending0) {
                            lemma_sound_after_adding(seen0, pending0, views(deps@));
                        }
                    }
                },
                None => {
                    assert(views(state.seen@) =~= seen0 + Seq::<Seq<char>>::empty());
                    assert(views(state.pending@) =~= pending0 + Seq::<Seq<char>>::empty());
                },
            }
            true
        },
    };
    if completed {
        state.in_flight = state.in_flight - 1;
    } else {
        assert(views(state.seen@) =~= seen0 + Seq::<Seq<char>>::empty());
        assert(views(state.pending@) =~= pending0 + Seq::<Seq<char>>::empty());
    }
    let ghost base = views(state.pending@);
    let ghost flying = state.in_flight;
    proof {
        assert(views(state.seen@) == seen0 + added);
        assert(base == pending0 + added);
        if added.len() == 0 {
            assert(seen0 + added =~= seen0);
            assert(pending0 + added =~= pending0);
        }
        assert(fetch_sound(seen0, pending0) ==> fetch_sound(seen0 + added, base));
    }
    let mut launch: Vec<String> = Vec::new();
    while state.in_flight < max_concurrent && state.pending.len() > 0
        invariant
            views(state.seen@) == seen0 + added,
            base == pending0 + added,
            fetch_sound(seen0, pending0) ==> fetch_sound(seen0 + added, base),
            flying <= state.in_flight,
            state.in_flight - flying == launch@.len(),
            launch@.len() <= base.len(),
            views(state.pending@) == base.subrange(0, base.len() - launch@.len()),
            views(launch@) == taken_from_end(base, launch@.len() as int),
            flying < max_concurrent ==> state.in_flight <= max_concurrent,
            flying >= max_concurrent ==> launch@.len() == 0,
        decreases state.pending@.len(),
    {
        let ghost before = launch@;
        let ghost p_old = state.pending@;
        let name = state.pending.pop().unwrap();
        proof {
            assert(views(p_old).len() == base.len() - before.len());
            assert(views(p_old)[p_old.len() - 1] == base[base.len() - before.len() - 1]);
            assert(state.pending@ =~= p_old.drop_last());
            assert(name@ == base[base.len() - 1 - before.len()]);
        }
        launch.push(name);
        proof {
            assert(views(state.pending@) =~= base.subrange(0, base.len() - launch@.len()));
            assert(views(launch@) =~= taken_from_end(base, launch@.len() as int)) by {
                assert forall|i: int| 0 <= i < launch@.len() implies views(launch@)[i] == taken_from_end(
                    base,
                    launch@.len() as int,
                )[i] by {
                    if i < before.len() {
                        assert(launch@[i] == before[i]);
                        assert(views(before)[i] == taken_from_end(base, before.len() as int)[i]);
                    } else {
                        assert(launch@[i] == name);
                    }
                }
            }
        }
        state.in_flight = state.in_flight + 1;
    }
    proof {
        assert(base == pending0 + added);
        assert(views(state.seen@) == seen0 + added);
        let s = views(state.seen@);
        let p = views(state.pending@);
        let l = views(launch@);
        if fetch_sound(s, base) {
            assert forall|i: int| 0 <= i < p.len() implies s.contains(#[trigger] p[i]) by {
                assert(p[i] == base[i]);
            }
            assert forall|i: int, j: int| 0 <= i < p.len() && 0 <= j < p.len() && i != j implies p[i] != p[j] by {
                assert(p[i] == base[i] && p[j] == base[j]);
            }
            assert forall|i: int| 0 <= i < l.len() implies s.contains(#[trigger] l[i]) && !p.contains(l[i]) by {
                let bi = base.len() - 1 - i;
                assert(l[i] == base[bi]);
                if p.contains(l[i]) {
                    let j = choose|j: int| 0 <= j < p.len() && p[j] == l[i];
                    assert(p[j] == base[j]);
                }
            }
            assert forall|i: int, j: int| 0 <= i < l.len() && 0 <= j < l.len() && i != j implies l[i] != l[j] by {
                assert(l[i] == base[base.len() - 1 - i]);
                assert(l[j] == base[base.len() - 1 - j]);
            }
        }
    }
    launch
}

/// A package waiting to be fetched during transitive discovery.
#[derive(Debug)]
pub struct PendingPackage {
    /// Package name.
    pub name: String,
    /// Version constraint from the parent, as written.
    pub constraint: String,
    /// The package that requires it (`None` for a root requirement).
    pub parent: Option<String>,
    /// Depth in the dependency tree.
    pub depth: usize,
    /// Whether it is a development requirement.
    pub is_dev: bool,
}

/// The contents of a pending package.
pub struct PendingView {
    pub name: Seq<char>,
    pub constraint: Seq<char>,
    pub parent: Option<Seq<char>>,
    pub depth: usize,
    pub is_dev: bool,
}

impl View for PendingPackage {
    type V = PendingView;

    open spec fn view(&self) -> PendingView {
        PendingView {
            name: self.name@,
            constraint: self.constraint@,
            parent: opt_view(self.parent),
            depth: self.depth,
            is_dev: self.is_dev,
        }
    }
}

/// The contents of a list of pending packages.
pub open spec fn pending_views(q: Seq<PendingPackage>) -> Seq<PendingView> {
    q.map_values(|p: PendingPackage| p@)
}

/// The contents of a list of (name, constraint) requirements.
pub open spec fn requirement_views(r: Seq<(String, String)>) -> Seq<(Seq<char>, Seq<char>)> {
    r.map_values(|p: (String, String)| (p.0@, p.1@))
}

/// The packages queued from a list of requirements of the package `parent`
/// at `depth`: each requirement that is no platform requirement and names
/// no package seen yet, in order, one level deeper. A root requirement has
/// no parent and stays at depth 0, and seen packages are not skipped then.
pub open spec fn queued_from(
    seen: Seq<Seq<char>>,
    reqs: Seq<(Seq<char>, Seq<char>)>,
    parent: Option<Seq<char>>,
    depth: int,
    is_dev: bool,
) -> Seq<PendingView>
    decreases reqs.len(),
{
    if reqs.len() == 0 {
        Seq::empty()
    } else {
        let rest = queued_from(seen, reqs.drop_last(), parent, depth, is_dev);
        let r = reqs.last();
        if !platform_name(r.0) && (parent is None || !seen.contains(r.0)) {
            rest.push(
                PendingView {
                    name: r.0,
                    constraint: r.1,
                    parent,
                    depth: if parent is None { 0usize } else { (depth + 1) as usize },
                    is_dev,
                },
            )
        } else {
            rest
        }
    }
}

/// The platform requirements among a list of requirements, in order.
pub open spec fn platform_reqs_of(reqs: Seq<(Seq<char>, Seq<char>)>) -> Seq<(Seq<char>, Seq<char>)>
    decreases reqs.len(),
{
    if reqs.len() == 0 {
        Seq::empty()
    } else {
        let rest = platform_reqs_of(reqs.drop_last());
        if platform_name(reqs.last().0) {
            rest.push(reqs.last())
        } else {
            rest
        }
    }
}

/// The bookkeeping of transitive discovery: the queue of packages to fetch
/// (front first), the names already taken from it, the packages found,
/// the edges (parent, package, constraint), the platform requirements met
/// (the last one given for a name counts), the packages not found with the
/// package that required them, and the deepest depth reached.
#[derive(Debug)]
pub struct TransitiveState {
    /// Packages waiting to be fetched, front first.
    pub queue: Vec<PendingPackage>,
    /// Names taken from the queue so far.
    pub seen: Vec<String>,
    /// Names of the packages found.
    pub packages: Vec<String>,
    /// Dependency edges: parent, package, constraint.
    pub edges: Vec<(String, String, String)>,
    /// Platform requirements: name and constraint, in the order met.
    pub platform_requirements: Vec<(String, String)>,
    /// Packages not found, with the package that required them.
    pub missing: Vec<(String, Option<String>)>,
    /// The deepest depth of a package found.
    pub max_depth_reached: usize,
}

/// Appends to `queue` the packages `queued_from` gives and to `platform`
/// the platform requirements among `reqs`.
fn queue_requirements(
    queue: &mut Vec<PendingPackage>,
    platform: &mut Vec<(String, String)>,
    seen: &Vec<String>,
    reqs: &[(String, String)],
    parent: &Option<String>,
    depth: usize,
    is_dev: bool,
)
    requires
        parent is Some ==> depth < usize::MAX,
    ensures
        pending_views(final(queue)@) == pending_views(old(queue)@) + queued_from(
            views(seen@),
            requirement_views(reqs@),
            opt_view(*parent),
            depth as int,
            is_dev,
        ),
        requirement_views(final(platform)@) == requirement_views(old(platform)@) + platform_reqs_of(
            requirement_views(reqs@),
        ),
{
    let ghost pv = opt_view(*parent);
    let ghost q0 = pending_views(queue@);
    let ghost p0 = requirement_views(platform@);
    let mut i: usize = 0;
    while i < reqs.len()
        invariant
            i <= reqs@.len(),
            parent is Some ==> depth < usize::MAX,
            pv == opt_view(*parent),
            pending_views(queue@) == q0 + queued_from(
                views(seen@),
                requirement_views(reqs@.subrange(0, i as int)),
                pv,
                depth as int,
                is_dev,
            ),
            requirement_views(platform@) == p0 + platform_reqs_of(requirement_views(reqs@.subrange(0, i as int))),
        decreases reqs.len() - i,
    {
        let ghost sub = requirement_views(reqs@.subrange(0, i + 1));
        proof {
            assert(sub.drop_last() =~= requirement_views(reqs@.subrange(0, i as int)));
            assert(sub.last() == (reqs@[i as int].0@, reqs@[i as int].1@));
        }
        let name = reqs[i].0.as_str();
        if is_platform_package(name) {
            let ghost before = platform@;
            platform.push((owned(name), owned(reqs[i].1.as_str())));
            proof {
                assert(requirement_views(platform@) =~= requirement_views(before).push(sub.last()));
            }
        } else {
            let skip = match parent {
                Some(_) => contains_name(seen.as_slice(), name),
                None => false,
            };
            if !skip {
                let ghost before = queue@;
                let entry = PendingPackage {
                    name: owned(name),
                    constraint: owned(reqs[i].1.as_str()),
                    parent: match parent {
                        Some(p) => Some(owned(p.as_str())),
                        None => None,
                    },
                    depth: match parent {
                        Some(_) => depth + 1,
                        None => 0,
                    },
                    is_dev,
                };
                queue.push(entry);
                proof {
                    assert(pending_views(queue@) =~= pending_views(before).push(entry@));
                }
            }
        }
        i = i + 1;
    }
    assert(reqs@.subrange(0, reqs@.len() as int) =~= reqs@);
}

impl TransitiveState {
    /// The state before the first fetch: the root requirements, then the
    /// development ones where they are included, queued at depth 0 (platform
    /// requirements set apart); nothing seen or found.
    pub fn new(root: &[(String, String)], dev: &[(String, String)], include_dev: bool) -> (r: Self)
        ensures
            pending_views(r.queue@) == queued_from(Seq::empty(), requirement_views(root@), None, 0, false)
                + if include_dev {
                queued_from(Seq::empty(), requirement_views(dev@), None, 0, true)
            } else {
                Seq::empty()
            },
            requirement_views(r.platform_requirements@) == platform_reqs_of(requirement_views(root@))
                + if include_dev {
                platform_reqs_of(requirement_views(dev@))
            } else {
                Seq::empty()
            },
            r.seen@.len() == 0,
            r.packages@.len() == 0,
            r.edges@.len() == 0,
            r.missing@.len() == 0,
            r.max_depth_reached == 0,
    {
        let mut queue: Vec<PendingPackage> = Vec::new();
        let mut platform: Vec<(String, String)> = Vec::new();
        let seen: Vec<String> = Vec::new();
        proof {
            assert(pending_views(queue@) =~= Seq::<PendingView>::empty());
            assert(requirement_views(platform@) =~= Seq::<(Seq<char>, Seq<char>)>::empty());
            assert(views(seen@) =~= Seq::<Seq<char>>::empty());
        }
        queue_requirements(&mut queue, &mut platform, &seen, root, &None, 0, false);
        if include_dev {
            queue_requirements(&mut queue, &mut platform, &seen, dev, &None, 0, true);
        } else {
            assert(pending_views(queue@) =~= pending_views(queue@) + Seq::<PendingView>::empty());
            assert(requirement_views(platform@) =~= requirement_views(platform@) + Seq::<(Seq<char>, Seq<char>)>::empty());
        }
        TransitiveState {
            queue,
            seen,
            packages: Vec::new(),
            edges: Vec::new(),
            platform_requirements: platform,
            missing: Vec::new(),
            max_depth_reached: 0,
        }
    }
}

/// What fetching a pending package gave.
#[derive(Debug)]
pub enum FetchOutcome {
    /// The package does not exist.
    NotFound,
    /// The package exists. With the requirements and development
    /// requirements of the version selected for the pending constraint, or
    /// `None` where no version satisfies it.
    Found(Option<(Vec<(String, String)>, Vec<(String, String)>)>),
}

/// The next batch taken from the front of `queue`: up to `size` packages
/// whose names were not seen before (nor earlier in the batch), and how
/// many queue entries were consumed to find them.
pub open spec fn take_batch(seen: Seq<Seq<char>>, queue: Seq<PendingView>, size: nat) -> (Seq<PendingView>, nat)
    decreases queue.len(),
{
    if size == 0 || queue.len() == 0 {
        (Seq::empty(), 0)
    } else {
        let p = queue[0];
        if seen.contains(p.name) {
            let rest = take_batch(seen, queue.drop_first(), size);
            (rest.0, rest.1 + 1)
        } else {
            let rest = take_batch(seen.push(p.name), queue.drop_first(), (size - 1) as nat);
            (seq![p] + rest.0, rest.1 + 1)
        }
    }
}

/// The names of a list of pending packages.
pub open spec fn pending_names(q: Seq<PendingView>) -> Seq<Seq<char>> {
    q.map_values(|p: PendingView| p.name)
}

proof fn lemma_take_batch_consumed(seen: Seq<Seq<char>>, queue: Seq<PendingView>, size: nat)
    ensures
        take_batch(seen, queue, size).1 <= queue.len(),
    decreases queue.len(),
{
    if size != 0 && queue.len() != 0 {
        if seen.contains(queue[0].name) {
            lemma_take_batch_consumed(seen, queue.drop_first(), size);
        } else {
            lemma_take_batch_consumed(seen.push(queue[0].name), queue.drop_first(), (size - 1) as nat);
        }
    }
}

impl TransitiveState {
    /// The next packages to fetch: none once `max_packages` (where it is
    /// not 0) packages are found; otherwise up to `batch_size` packages taken
    /// from the front of the queue, skipping names already seen, each name
    /// then marked seen.
    pub fn next_batch(&mut self, batch_size: usize, max_packages: usize) -> (batch: Vec<PendingPackage>)
        ensures
            max_packages > 0 && old(self).packages@.len() >= max_packages ==> batch@.len() == 0
                && pending_views(final(self).queue@) == pending_views(old(self).queue@) && views(
                final(self).seen@,
            ) == views(old(self).seen@),
            !(max_packages > 0 && old(self).packages@.len() >= max_packages) ==> ({
                let t = take_batch(views(old(self).seen@), pending_views(old(self).queue@), batch_size as nat);
                &&& pending_views(batch@) == t.0
                &&& pending_views(final(self).queue@) == pending_views(old(self).queue@).subrange(
                    t.1 as int,
                    old(self).queue@.len() as int,
                )
                &&& views(final(self).seen@) == views(old(self).seen@) + pending_names(t.0)
            }),
            final(self).packages == old(self).packages,
            final(self).edges == old(self).edges,
            final(self).platform_requirements == old(self).platform_requirements,
            final(self).missing == old(self).missing,
            final(self).max_depth_reached == old(self).max_depth_reached,
            pending_views(batch@) == batch_of(old(self)@, batch_size, max_packages).0,
            final(self)@ == batch_of(old(self)@, batch_size, max_packages).1,
    {
        let mut batch: Vec<PendingPackage> = Vec::new();
        if max_packages > 0 && self.packages.len() >= max_packages {
            assert(pending_views(batch@) =~= Seq::<PendingView>::empty());
            return batch;
        }
        let ghost seen0 = views(self.seen@);
        let ghost q0 = pending_views(self.queue@);
        let ghost total = take_batch(seen0, q0, batch_size as nat);
        proof {
            assert(q0.subrange(0, q0.len() as int) =~= q0);
            assert(pending_views(batch@) + total.0 =~= total.0);
            assert(views(self.seen@) =~= seen0 + pending_names(pending_views(batch@)));
        }
        while batch.len() < batch_size && self.queue.len() > 0
            invariant
                batch@.len() <= batch_size,
                pending_views(self.queue@) == q0.subrange(q0.len() - self.queue@.len(), q0.len() as int),
                self.queue@.len() <= q0.len(),
                views(self.seen@) == seen0 + pending_names(pending_views(batch@)),
                self.packages == old(self).packages,
                self.edges == old(self).edges,
                self.platform_requirements == old(self).platform_requirements,
                self.missing == old(self).missing,
                self.max_depth_reached == old(self).max_depth_reached,
                ({
                    let rest = take_batch(views(self.seen@), pending_views(self.queue@), (batch_size - batch@.len()) as nat);
                    &&& pending_views(batch@) + rest.0 == total.0
                    &&& (q0.len() - self.queue@.len()) + rest.1 == total.1
                }),
            decreases self.queue@.len(),
        {
            let ghost qv = pending_views(self.queue@);
            let ghost sv = views(self.seen@);
            let ghost left = (batch_size - batch@.len()) as nat;
            let p = self.queue.remove(0);
            proof {
                assert(qv[0] == p@);
                assert(pending_views(self.queue@) =~= qv.drop_first());
            }
            if contains_name(self.seen.as_slice(), p.name.as_str()) {
                proof {
                    assert(take_batch(sv, qv, left) == (take_batch(sv, qv.drop_first(), left).0, take_batch(sv, qv.drop_first(), left).1 + 1));
                }
            } else {
                let ghost b0 = batch@;
                self.seen.push(owned(p.name.as_str()));
                batch.push(p);
                proof {
                    let rest = take_batch(sv.push(p@.name), qv.drop_first(), (left - 1) as nat);
                    assert(take_batch(sv, qv, left) == (seq![p@] + rest.0, rest.1 + 1));
                    assert(pending_views(batch@) =~= pending_views(b0).push(p@));
                    assert(views(self.seen@) =~= sv.push(p@.name));
                    assert(pending_names(pending_views(batch@)) =~= pending_names(pending_views(b0)).push(p@.name));
                    assert(pending_views(b0) + (seq![p@] + rest.0) =~= pending_views(batch@) + rest.0);
                }
            }
            proof {
                assert(pending_views(self.queue@) =~= q0.subrange(q0.len() - self.queue@.len(), q0.len() as int));
            }
        }
        proof {
            let rest = take_batch(views(self.seen@), pending_views(self.queue@), (batch_size - batch@.len()) as nat);
            assert(rest.0 =~= Seq::<PendingView>::empty());
            assert(pending_views(batch@) + rest.0 =~= pending_views(batch@));
            lemma_take_batch_consumed(seen0, q0, batch_size as nat);
            assert(pending_views(self.queue@) =~= q0.subrange(total.1 as int, q0.len() as int));
        }
        batch
    }
}

/// The batch taken from the bookkeeping `s` and the bookkeeping after it:
/// nothing once `max_packages` (where it is not 0) packages are found; else
/// the packages `take_batch` gives, the queue entries it consumed removed
/// and the names taken marked seen.
pub open spec fn batch_of(s: TransitiveView, batch_size: usize, max_packages: usize) -> (Seq<PendingView>, TransitiveView) {
    if max_packages > 0 && s.packages.len() >= max_packages {
        (Seq::empty(), s)
    } else {
        let t = take_batch(s.seen, s.queue, batch_size as nat);
        (t.0, TransitiveView { queue: s.queue.subrange(t.1 as int, s.queue.len() as int), seen: s.seen + pending_names(t.0), ..s })
    }
}

/// Each name is taken from the queue at most once: a batch holds at most
/// `size` packages, none of them named in `seen`, no two of them with one
/// name.
pub proof fn lemma_take_batch_fresh(seen: Seq<Seq<char>>, queue: Seq<PendingView>, size: nat)
    ensures
        take_batch(seen, queue, size).0.len() <= size,
        forall|i: int| 0 <= i < take_batch(seen, queue, size).0.len() ==> !seen.contains(#[trigger] take_batch(seen, queue, size).0[i].name),
        forall|i: int, j: int| 0 <= i < j < take_batch(seen, queue, size).0.len()
            ==> take_batch(seen, queue, size).0[i].name != take_batch(seen, queue, size).0[j].name,
    decreases queue.len(),
{
    if size != 0 && queue.len() != 0 {
        let p = queue[0];
        if seen.contains(p.name) {
            lemma_take_batch_fresh(seen, queue.drop_first(), size);
        } else {
            let s2 = seen.push(p.name);
            lemma_take_batch_fresh(s2, queue.drop_first(), (size - 1) as nat);
            let rest = take_batch(s2, queue.drop_first(), (size - 1) as nat).0;
            let b = take_batch(seen, queue, size).0;
            assert(b =~= seq![p] + rest);
            assert forall|i: int| 0 <= i < b.len() implies !seen.contains(#[trigger] b[i].name) by {
                if i > 0 {
                    assert(b[i] == rest[i - 1]);
                    assert(!s2.contains(rest[i - 1].name));
                    if seen.contains(rest[i - 1].name) {
                        let k = choose|k: int| 0 <= k < seen.len() && seen[k] == rest[i - 1].name;
                        assert(s2[k] == seen[k]);
                    }
                }
            }
            assert forall|i: int, j: int| 0 <= i < j < b.len() implies b[i].name != b[j].name by {
                assert(b[j] == rest[j - 1]);
                assert(!s2.contains(rest[j - 1].name));
                assert(s2[seen.len() as int] == p.name);
                if i > 0 {
                    assert(b[i] == rest[i - 1]);
                }
            }
        }
    }
}

/// The contents of the bookkeeping of transitive discovery.
pub struct TransitiveView {
    pub queue: Seq<PendingView>,
    pub seen: Seq<Seq<char>>,
    pub packages: Seq<Seq<char>>,
    pub edges: Seq<(Seq<char>, Seq<char>, Seq<char>)>,
    pub platform_requirements: Seq<(Seq<char>, Seq<char>)>,
    pub missing: Seq<(Seq<char>, Option<Seq<char>>)>,
    pub max_depth_reached: usize,
}

/// The contents of a list of dependency edges.
pub open spec fn edge_views(e: Seq<(String, String, String)>) -> Seq<(Seq<char>, Seq<char>, Seq<char>)> {
    e.map_values(|t: (String, String, String)| (t.0@, t.1@, t.2@))
}

/// The contents of a list of missing packages.
pub open spec fn missing_views(m: Seq<(String, Option<String>)>) -> Seq<(Seq<char>, Option<Seq<char>>)> {
    m.map_values(|t: (String, Option<String>)| (t.0@, opt_view(t.1)))
}

impl View for TransitiveState {
    type V = TransitiveView;

    open spec fn view(&self) -> TransitiveView {
        TransitiveView {
            queue: pending_views(self.queue@),
            seen: views(self.seen@),
            packages: views(self.packages@),
            edges: edge_views(self.edges@),
            platform_requirements: requirement_views(self.platform_requirements@),
            missing: missing_views(self.missing@),
            max_depth_reached: self.max_depth_reached,
        }
    }
}

/// The contents of a fetch outcome: `None` for a package not found, else
/// the requirements and development requirements of the selected version,
/// where one was selected.
pub open spec fn outcome_view(o: FetchOutcome) -> Option<Option<(Seq<(Seq<char>, Seq<char>)>, Seq<(Seq<char>, Seq<char>)>)>> {
    match o {
        FetchOutcome::NotFound => None,
        FetchOutcome::Found(None) => Some(None),
        FetchOutcome::Found(Some(reqs)) => Some(Some((requirement_views(reqs.0@), requirement_views(reqs.1@)))),
    }
}

/// The bookkeeping after the fetch of `p` gave `o`. A package not found is
/// recorded as missing with the package that required it. A package found
/// is recorded, with its depth counted towards the deepest depth; where
/// `max_depth` (when not 0) is not reached yet and a version was selected,
/// the edge from its parent is added, its requirements are queued one level
/// deeper (names seen already and platform requirements skipped, the latter
/// recorded), and so are its development requirements where it is a root
/// package or `include_transitive_dev` holds.
pub open spec fn after_fetch(
    s: TransitiveView,
    p: PendingView,
    o: Option<Option<(Seq<(Seq<char>, Seq<char>)>, Seq<(Seq<char>, Seq<char>)>)>>,
    max_depth: usize,
    include_transitive_dev: bool,
) -> TransitiveView {
    match o {
        None => TransitiveView { missing: s.missing.push((p.name, p.parent)), ..s },
        Some(selected) => {
            let found = TransitiveView {
                packages: s.packages.push(p.name),
                max_depth_reached: if p.depth > s.max_depth_reached { p.depth } else { s.max_depth_reached },
                ..s
            };
            if max_depth > 0 && p.depth >= max_depth {
                found
            } else {
                match selected {
                    None => found,
                    Some(reqs) => {
                        let with_dev = p.depth == 0 || include_transitive_dev;
                        let me = Some(p.name);
                        TransitiveView {
                            edges: match p.parent {
                                Some(parent) => found.edges.push((parent, p.name, p.constraint)),
                                None => found.edges,
                            },
                            queue: found.queue + queued_from(s.seen, reqs.0, me, p.depth as int, false)
                                + if with_dev {
                                queued_from(s.seen, reqs.1, me, p.depth as int, true)
                            } else {
                                Seq::empty()
                            },
                            platform_requirements: found.platform_requirements + platform_reqs_of(reqs.0)
                                + if with_dev {
                                platform_reqs_of(reqs.1)
                            } else {
                                Seq::empty()
                            },
                            ..found
                        }
                    },
                }
            }
        },
    }
}

impl TransitiveState {
    /// Records what the fetch of `pending` gave (see `after_fetch`).
    pub fn record(&mut self, pending: &PendingPackage, outcome: &FetchOutcome, max_depth: usize, include_transitive_dev: bool)
        requires
            pending.depth < usize::MAX,
        ensures
            final(self)@ == after_fetch(old(self)@, pending@, outcome_view(*outcome), max_depth, include_transitive_dev),
    {
        let ghost s0 = self@;
        match outcome {
            FetchOutcome::NotFound => {
                let parent = match &pending.parent {
                    Some(p) => Some(owned(p.as_str())),
                    None => None,
                };
                self.missing.push((owned(pending.name.as_str()), parent));
                proof {
                    assert(missing_views(self.missing@) =~= s0.missing.push((pending@.name, pending@.parent)));
                }
            },
            FetchOutcome::Found(selected) => {
                if pending.depth > self.max_depth_reached {
                    self.max_depth_reached = pending.depth;
                }
                let ghost p0 = self.platform_requirements@;
                let ghost q0 = self.queue@;
                let ghost e0 = self.edges@;
                if !(max_depth > 0 && pending.depth >= max_depth) {
                    match selected {
                        None => {},
                        Some(reqs) => {
                            match &pending.parent {
                                Some(parent) => {
                                    self.edges.push((owned(parent.as_str()), owned(pending.name.as_str()), owned(pending.constraint.as_str())));
                                    proof {
                                        assert(edge_views(self.edges@) =~= edge_views(e0).push((parent@, pending@.name, pending@.constraint)));
                                    }
                                },
                                None => {},
                            }
                            let me: Option<String> = Some(owned(pending.name.as_str()));
                            queue_requirements(&mut self.queue, &mut self.platform_requirements, &self.seen, reqs.0.as_slice(), &me, pending.depth, false);
                            if pending.depth == 0 || include_transitive_dev {
                                queue_requirements(&mut self.queue, &mut self.platform_requirements, &self.seen, reqs.1.as_slice(), &me, pending.depth, true);
                            } else {
                                assert(pending_views(self.queue@) =~= pending_views(self.queue@) + Seq::<PendingView>::empty());
                                assert(requirement_views(self.platform_requirements@) =~= requirement_views(self.platform_requirements@) + Seq::<(Seq<char>, Seq<char>)>::empty());
                            }
                        },
                    }
                }
                let ghost k0 = self.packages@;
                self.packages.push(owned(pending.name.as_str()));
                proof {
                    assert(views(self.packages@) =~= views(k0).push(pending@.name));
                }
            },
        }
    }
}

/// The contents of a batch of fetch results.
pub open spec fn fetched_views(f: Seq<(PendingPackage, FetchOutcome)>) -> Seq<(PendingView, Option<Option<(Seq<(Seq<char>, Seq<char>)>, Seq<(Seq<char>, Seq<char>)>)>>)> {
    f.map_values(|t: (PendingPackage, FetchOutcome)| (t.0@, outcome_view(t.1)))
}

/// The bookkeeping after the fetch results `f` were recorded, in order.
pub open spec fn after_fetches(
    s: TransitiveView,
    f: Seq<(PendingView, Option<Option<(Seq<(Seq<char>, Seq<char>)>, Seq<(Seq<char>, Seq<char>)>)>>)>,
    max_depth: usize,
    include_transitive_dev: bool,
) -> TransitiveView
    decreases f.len(),
{
    if f.len() == 0 {
        s
    } else {
        after_fetch(
            after_fetches(s, f.drop_last(), max_depth, include_transitive_dev),
            f.last().0,
            f.last().1,
            max_depth,
            include_transitive_dev,
        )
    }
}

/// One round of transitive discovery: the results of fetching the last
/// batch are recorded in order, then the next batch is taken (empty when
/// discovery is over).
pub fn transitive_step(
    state: &mut TransitiveState,
    fetched: &[(PendingPackage, FetchOutcome)],
    max_depth: usize,
    include_transitive_dev: bool,
    batch_size: usize,
    max_packages: usize,
) -> (next: Vec<PendingPackage>)
    requires
        forall|i: int| 0 <= i < fetched@.len() ==> (#[trigger] fetched@[i]).0.depth < usize::MAX,
    ensures
        ({
            let s = after_fetches(old(state)@, fetched_views(fetched@), max_depth, include_transitive_dev);
            &&& pending_views(next@) == batch_of(s, batch_size, max_packages).0
            &&& final(state)@ == batch_of(s, batch_size, max_packages).1
        }),
{
    let ghost s0 = state@;
    let mut i: usize = 0;
    while i < fetched.len()
        invariant
            i <= fetched@.len(),
            forall|k: int| 0 <= k < fetched@.len() ==> (#[trigger] fetched@[k]).0.depth < usize::MAX,
            state@ == after_fetches(s0, fetched_views(fetched@.subrange(0, i as int)), max_depth, include_transitive_dev),
        decreases fetched.len() - i,
    {
        let ghost before = state@;
        state.record(&fetched[i].0, &fetched[i].1, max_depth, include_transitive_dev);
        proof {
            let f = fetched_views(fetched@.subrange(0, i + 1));
            assert(f.drop_last() =~= fetched_views(fetched@.subrange(0, i as int)));
            assert(f.last() == (fetched@[i as int].0@, outcome_view(fetched@[i as int].1)));
        }
        i = i + 1;
    }
    assert(fetched@.subrange(0, fetched@.len() as int) =~= fetched@);
    state.next_batch(batch_size, max_packages)
}

/// No name is fetched twice: where the names seen so far are distinct, they
/// still are after a batch is taken.
pub proof fn lemma_batch_keeps_seen_distinct(s: TransitiveView, batch_size: usize, max_packages: usize)
    requires
        s.seen.no_duplicates(),
    ensures
        batch_of(s, batch_size, max_packages).1.seen.no_duplicates(),
{
    if !(max_packages > 0 && s.packages.len() >= max_packages) {
        let t = take_batch(s.seen, s.queue, batch_size as nat);
        lemma_take_batch_fresh(s.seen, s.queue, batch_size as nat);
        let n = pending_names(t.0);
        let all = s.seen + n;
        assert forall|i: int, j: int| 0 <= i < all.len() && 0 <= j < all.len() && i != j implies all[i] != all[j] by {
            if i < s.seen.len() && j >= s.seen.len() {
                assert(all[j] == t.0[j - s.seen.len()].name);
                assert(!s.seen.contains(t.0[j - s.seen.len()].name));
            } else if j < s.seen.len() && i >= s.seen.len() {
                assert(all[i] == t.0[i - s.seen.len()].name);
                assert(!s.seen.contains(t.0[i - s.seen.len()].name));
            } else if i >= s.seen.len() && j >= s.seen.len() {
                assert(all[i] == t.0[i - s.seen.len()].name);
                assert(all[j] == t.0[j - s.seen.len()].name);
            }
        }
    }
}

/// Recording fetch results leaves the names seen as they were: only taking
/// a batch marks names seen.
pub proof fn lemma_fetches_keep_seen(
    s: TransitiveView,
    f: Seq<(PendingView, Option<Option<(Seq<(Seq<char>, Seq<char>)>, Seq<(Seq<char>, Seq<char>)>)>>)>,
    max_depth: usize,
    include_transitive_dev: bool,
)
    ensures
        after_fetches(s, f, max_depth, include_transitive_dev).seen == s.seen,
    decreases f.len(),
{
    if f.len() > 0 {
        lemma_fetches_keep_seen(s, f.drop_last(), max_depth, include_transitive_dev);
    }
}

/// The requirements among a list that are no platform requirements, in
/// order.
pub open spec fn package_reqs_of(reqs: Seq<(Seq<char>, Seq<char>)>) -> Seq<(Seq<char>, Seq<char>)>
    decreases reqs.len(),
{
    if reqs.len() == 0 {
        Seq::empty()
    } else {
        let rest = package_reqs_of(reqs.drop_last());
        if platform_name(reqs.last().0) {
            rest
        } else {
            rest.push(reqs.last())
        }
    }
}

fn push_package_reqs(out: &mut Vec<(String, String)>, reqs: &[(String, String)])
    ensures
        requirement_views(final(out)@) == requirement_views(old(out)@) + package_reqs_of(requirement_views(reqs@)),
{
    let ghost start = requirement_views(out@);
    let mut i: usize = 0;
    while i < reqs.len()
        invariant
            i <= reqs@.len(),
            requirement_views(out@) == start + package_reqs_of(requirement_views(reqs@.subrange(0, i as int))),
        decreases reqs.len() - i,
    {
        let ghost sub = requirement_views(reqs@.subrange(0, i + 1));
        proof {
            assert(sub.drop_last() =~= requirement_views(reqs@.subrange(0, i as int)));
            assert(sub.last() == (reqs@[i as int].0@, reqs@[i as int].1@));
        }
        if !is_platform_package(reqs[i].0.as_str()) {
            let ghost before = out@;
            out.push((owned(reqs[i].0.as_str()), owned(reqs[i].1.as_str())));
            proof {
                assert(requirement_views(out@) =~= requirement_views(before).push(sub.last()));
            }
        }
        i = i + 1;
    }
    assert(reqs@.subrange(0, reqs@.len() as int) =~= reqs@);
}

/// The requirements a resolution starts from: the root requirements, then
/// the development ones where they are included, platform requirements
/// left out; and the names of all development requirements, which mark the
/// packages that are installed for development.
pub fn root_requirements(root: &[(String, String)], dev: &[(String, String)], include_dev: bool) -> (r: (
    Vec<(String, String)>,
    Vec<String>,
))
    ensures
        requirement_views(r.0@) == package_reqs_of(requirement_views(root@)) + if include_dev {
            package_reqs_of(requirement_views(dev@))
        } else {
            Seq::empty()
        },
        views(r.1@) == requirement_views(dev@).map_values(|p: (Seq<char>, Seq<char>)| p.0),
{
    let mut reqs: Vec<(String, String)> = Vec::new();
    assert(requirement_views(reqs@) =~= Seq::<(Seq<char>, Seq<char>)>::empty());
    push_package_reqs(&mut reqs, root);
    if include_dev {
        push_package_reqs(&mut reqs, dev);
    } else {
        assert(requirement_views(reqs@) =~= requirement_views(reqs@) + Seq::<(Seq<char>, Seq<char>)>::empty());
    }
    let mut names: Vec<String> = Vec::new();
    let mut i: usize = 0;
    while i < dev.len()
        invariant
            i <= dev@.len(),
            views(names@) == requirement_views(dev@.subrange(0, i as int)).map_values(|p: (Seq<char>, Seq<char>)| p.0),
        decreases dev.len() - i,
    {
        let ghost before = names@;
        names.push(owned(dev[i].0.as_str()));
        proof {
            assert(views(names@) =~= views(before).push(dev@[i as int].0@));
            assert(requirement_views(dev@.subrange(0, i + 1)).map_values(|p: (Seq<char>, Seq<char>)| p.0)
                =~= requirement_views(dev@.subrange(0, i as int)).map_values(|p: (Seq<char>, Seq<char>)| p.0).push(
                dev@[i as int].0@,
            ));
        }
        i = i + 1;
    }
    assert(dev@.subrange(0, dev@.len() as int) =~= dev@);
    (reqs, names)
}

} // verus!
