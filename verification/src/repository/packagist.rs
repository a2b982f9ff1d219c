//! Packagist API response types, including the fields that minified
//! metadata may mark as `__unset`.
use vstd::prelude::*;
use crate::text::{owned, Duplicate};

verus! {

/// Key-value field that can be `__unset` in minified metadata; the pairs
/// keep the order of the response.
#[derive(Debug, Clone)]
pub enum MapOrUnset<K, V> {
    /// The pairs of the map.
    Entries(Vec<(K, V)>),
    /// Special "__unset" marker from Composer metadata minifier.
    Unset(String),
}

impl<K: Duplicate, V: Duplicate> MapOrUnset<K, V> {
    /// Get as pairs, empty if unset.
    pub fn as_map(&self) -> (r: Vec<(K, V)>)
        ensures
            match *self {
                MapOrUnset::Entries(m) => r.deep_view() == m.deep_view(),
                MapOrUnset::Unset(_) => r@.len() == 0,
            },
    {
        match self {
            MapOrUnset::Entries(m) => m.duplicate(),
            MapOrUnset::Unset(_) => Vec::new(),
        }
    }

    /// Check if this field is unset.
    pub fn is_unset(&self) -> (r: bool)
        ensures
            r == self is Unset,
    {
        matches!(self, MapOrUnset::Unset(_))
    }
}

impl<K, V> Default for MapOrUnset<K, V> {
    fn default() -> (r: Self)
        ensures
            r matches MapOrUnset::Entries(m) && m@.len() == 0,
    {
        MapOrUnset::Entries(Vec::new())
    }
}

/// List field that can be `__unset` in minified metadata.
#[derive(Debug, Clone)]
pub enum VecOrUnset<T> {
    /// The values.
    Values(Vec<T>),
    /// Special "__unset" marker from Composer metadata minifier.
    Unset(String),
}

impl<T: Duplicate> VecOrUnset<T> {
    /// Get as vec, returning empty vec if unset.
    pub fn as_vec(&self) -> (r: Vec<T>)
        ensures
            match *self {
                VecOrUnset::Values(v) => r.deep_view() == v.deep_view(),
                VecOrUnset::Unset(_) => r@.len() == 0,
            },
    {
        match self {
            VecOrUnset::Values(v) => v.duplicate(),
            VecOrUnset::Unset(_) => Vec::new(),
        }
    }

    /// Check if this field is unset.
    pub fn is_unset(&self) -> (r: bool)
        ensures
            r == self is Unset,
    {
        matches!(self, VecOrUnset::Unset(_))
    }

    /// Check if this vec is empty (either actually empty or unset).
    pub fn is_empty(&self) -> (r: bool)
        ensures
            r == (match *self {
                VecOrUnset::Values(v) => v@.len() == 0,
                VecOrUnset::Unset(_) => true,
            }),
    {
        match self {
            VecOrUnset::Values(v) => v.len() == 0,
            VecOrUnset::Unset(_) => true,
        }
    }
}

impl<T> Default for VecOrUnset<T> {
    fn default() -> (r: Self)
        ensures
            r matches VecOrUnset::Values(v) && v@.len() == 0,
    {
        VecOrUnset::Values(Vec::new())
    }
}

/// Value that can be a struct or the `__unset` marker in minified metadata.
#[derive(Debug, Clone)]
pub enum ValueOrUnset<T> {
    /// Actual value.
    Value(T),
    /// Special "__unset" marker from Composer metadata minifier.
    Unset(String),
}

impl<T: Duplicate + Default> ValueOrUnset<T> {
    /// Get the value, or the default value when unset.
    pub fn value_or_default(&self) -> (r: T)
        ensures
            match *self {
                ValueOrUnset::Value(v) => r.deep_view() == v.deep_view(),
                ValueOrUnset::Unset(_) => call_ensures(T::default, (), r),
            },
    {
        match self {
            ValueOrUnset::Value(v) => v.duplicate(),
            ValueOrUnset::Unset(_) => T::default(),
        }
    }
}

impl<T: Default> Default for ValueOrUnset<T> {
    fn default() -> (r: Self)
        ensures
            r matches ValueOrUnset::Value(v) && call_ensures(T::default, (), v),
    {
        ValueOrUnset::Value(T::default())
    }
}

impl<T> ValueOrUnset<T> {
    /// Check if this field is unset.
    pub fn is_unset(&self) -> (r: bool)
        ensures
            r == self is Unset,
    {
        matches!(self, ValueOrUnset::Unset(_))
    }
}

/// Provider include entry.
#[derive(Debug, Clone)]
pub struct ProviderInclude {
    /// SHA256 hash of the file.
    pub sha256: String,
}

/// License value can be a string or array of strings.
#[derive(Debug, Clone, Default)]
pub enum LicenseValue {
    /// Single license.
    Single(String),
    /// Multiple licenses.
    Multiple(Vec<String>),
    /// No license specified.
    #[default]
    Unspecified,
}

/// The texts of a list of strings.
pub open spec fn texts_of(v: Seq<String>) -> Seq<Seq<char>> {
    v.map_values(|s: String| s@)
}

fn copy_strings(v: &Vec<String>) -> (r: Vec<String>)
    ensures
        texts_of(r@) == texts_of(v@),
{
    let mut out: Vec<String> = Vec::new();
    let mut i: usize = 0;
    while i < v.len()
        invariant
            i <= v@.len(),
            texts_of(out@) == texts_of(v@.subrange(0, i as int)),
        decreases v.len() - i,
    {
        let ghost prev = out@;
        out.push(owned(v[i].as_str()));
        assert(texts_of(out@) =~= texts_of(prev).push(v@[i as int]@));
        i = i + 1;
        assert(texts_of(v@.subrange(0, i as int)) =~= texts_of(v@.subrange(0, i - 1)).push(v@[i - 1]@));
    }
    assert(v@.subrange(0, v@.len() as int) =~= v@);
    out
}

impl LicenseValue {
    /// The licenses, as a list.
    pub fn to_vec(&self) -> (r: Vec<String>)
        ensures
            texts_of(r@) == (match *self {
                LicenseValue::Single(s) => seq![s@],
                LicenseValue::Multiple(v) => texts_of(v@),
                LicenseValue::Unspecified => Seq::empty(),
            }),
    {
        match self {
            LicenseValue::Single(s) => {
                let r = vec![owned(s.as_str())];
                assert(texts_of(r@) =~= seq![s@]);
                r
            },
            LicenseValue::Multiple(v) => copy_strings(v),
            LicenseValue::Unspecified => {
                let r: Vec<String> = Vec::new();
                assert(texts_of(r@) =~= Seq::<Seq<char>>::empty());
                r
            },
        }
    }
}

/// Abandoned value can be boolean or replacement package name.
#[derive(Debug, Clone, Default)]
pub enum AbandonedValue {
    /// Boolean abandoned flag.
    Boolean(bool),
    /// Replacement package name.
    Replacement(String),
    /// Not abandoned.
    #[default]
    NotGiven,
}

impl AbandonedValue {
    /// Check if package is abandoned.
    pub fn is_abandoned(&self) -> (r: bool)
        ensures
            r == (match *self {
                AbandonedValue::Boolean(b) => b,
                AbandonedValue::Replacement(_) => true,
                AbandonedValue::NotGiven => false,
            }),
    {
        match self {
            AbandonedValue::Boolean(b) => *b,
            AbandonedValue::Replacement(_) => true,
            AbandonedValue::NotGiven => false,
        }
    }

    /// Get replacement package if specified.
    pub fn replacement(&self) -> (r: Option<&str>)
        ensures
            match *self {
                AbandonedValue::Replacement(s) => r matches Some(t) && t@ == s@,
                _ => r is None,
            },
    {
        match self {
            AbandonedValue::Replacement(s) => Some(s.as_str()),
            _ => None,
        }
    }
}

/// Author information.
#[derive(Debug, Clone, Default)]
pub struct AuthorJson {
    /// Author name.
    pub name: String,
    /// Author email.
    pub email: Option<String>,
    /// Author homepage.
    pub homepage: Option<String>,
    /// Author role.
    pub role: Option<String>,
}

/// Source (VCS) information.
#[derive(Debug, Clone)]
pub struct SourceJson {
    /// VCS type (git, svn, etc.).
    pub source_type: String,
    /// Repository URL.
    pub url: String,
    /// Reference (branch, tag, commit).
    pub reference: String,
}

/// Distribution (archive) information.
#[derive(Debug, Clone)]
pub struct DistJson {
    /// Archive type (zip, tar).
    pub archive_type: String,
    /// Download URL.
    pub url: String,
    /// SHA checksum.
    pub shasum: Option<String>,
    /// Reference.
    pub reference: Option<String>,
}

/// PSR autoload value can be string or array.
#[derive(Debug, Clone)]
pub enum PsrValue {
    /// Multiple paths.
    Multiple(Vec<String>),
    /// Single path.
    Single(String),
}

impl PsrValue {
    /// Convert to vector of paths.
    pub fn to_vec(&self) -> (r: Vec<String>)
        ensures
            texts_of(r@) == (match *self {
                PsrValue::Single(s) => seq![s@],
                PsrValue::Multiple(v) => texts_of(v@),
            }),
    {
        match self {
            PsrValue::Single(s) => {
                let r = vec![owned(s.as_str())];
                assert(texts_of(r@) =~= seq![s@]);
                r
            },
            PsrValue::Multiple(v) => copy_strings(v),
        }
    }
}

/// Classmap value can be string, array of strings, or nested array (legacy
/// format).
#[derive(Debug, Clone)]
pub enum ClassmapValue {
    /// Single path.
    Single(String),
    /// Array of paths.
    Array(Vec<String>),
    /// Nested array (legacy Laravel 4.x format).
    NestedArray(Vec<Vec<String>>),
}

/// The texts of nested lists, flattened in order.
pub open spec fn flatten_texts(nested: Seq<Vec<String>>) -> Seq<Seq<char>>
    decreases nested.len(),
{
    if nested.len() == 0 {
        Seq::empty()
    } else {
        flatten_texts(nested.drop_last()) + texts_of(nested.last()@)
    }
}

/// The paths of a classmap value.
pub open spec fn classmap_paths(v: ClassmapValue) -> Seq<Seq<char>> {
    match v {
        ClassmapValue::Single(s) => seq![s@],
        ClassmapValue::Array(a) => texts_of(a@),
        ClassmapValue::NestedArray(n) => flatten_texts(n@),
    }
}

fn append_strings(out: &mut Vec<String>, v: &Vec<String>)
    ensures
        texts_of(final(out)@) == texts_of(old(out)@) + texts_of(v@),
{
    let mut i: usize = 0;
    while i < v.len()
        invariant
            i <= v@.len(),
            texts_of(out@) == texts_of(old(out)@) + texts_of(v@.subrange(0, i as int)),
        decreases v.len() - i,
    {
        let ghost prev = out@;
        out.push(owned(v[i].as_str()));
        assert(texts_of(out@) =~= texts_of(prev).push(v@[i as int]@));
        i = i + 1;
        assert(texts_of(v@.subrange(0, i as int)) =~= texts_of(v@.subrange(0, i - 1)).push(v@[i - 1]@));
        assert(texts_of(out@) =~= texts_of(old(out)@) + texts_of(v@.subrange(0, i as int)));
    }
    assert(v@.subrange(0, v@.len() as int) =~= v@);
}

impl ClassmapValue {
    /// Convert to vector of paths, flattening nested arrays.
    pub fn to_vec(&self) -> (r: Vec<String>)
        ensures
            texts_of(r@) == classmap_paths(*self),
    {
        match self {
            ClassmapValue::Single(s) => {
                let r = vec![owned(s.as_str())];
                assert(texts_of(r@) =~= seq![s@]);
                r
            },
            ClassmapValue::Array(v) => copy_strings(v),
            ClassmapValue::NestedArray(nested) => {
                let mut out: Vec<String> = Vec::new();
                let mut i: usize = 0;
                while i < nested.len()
                    invariant
                        i <= nested@.len(),
                        texts_of(out@) == flatten_texts(nested@.subrange(0, i as int)),
                    decreases nested.len() - i,
                {
                    append_strings(&mut out, &nested[i]);
                    assert(nested@.subrange(0, i + 1).drop_last() =~= nested@.subrange(0, i as int));
                    i = i + 1;
                }
                assert(nested@.subrange(0, nested@.len() as int) =~= nested@);
                out
            },
        }
    }
}

/// Classmap field that can be various formats or `__unset`.
#[derive(Debug, Clone)]
pub enum ClassmapOrUnset {
    /// Classmap values.
    Values(Vec<ClassmapValue>),
    /// Special "__unset" marker.
    Unset(String),
}

/// The paths of a list of classmap values, flattened in order.
pub open spec fn classmap_list_paths(vals: Seq<ClassmapValue>) -> Seq<Seq<char>>
    decreases vals.len(),
{
    if vals.len() == 0 {
        Seq::empty()
    } else {
        classmap_list_paths(vals.drop_last()) + classmap_paths(vals.last())
    }
}

impl ClassmapOrUnset {
    /// Convert to flat vector of paths.
    pub fn to_vec(&self) -> (r: Vec<String>)
        ensures
            texts_of(r@) == (match *self {
                ClassmapOrUnset::Values(vals) => classmap_list_paths(vals@),
                ClassmapOrUnset::Unset(_) => Seq::empty(),
            }),
    {
        match self {
            ClassmapOrUnset::Values(vals) => {
                let mut out: Vec<String> = Vec::new();
                let mut i: usize = 0;
                while i < vals.len()
                    invariant
                        i <= vals@.len(),
                        texts_of(out@) == classmap_list_paths(vals@.subrange(0, i as int)),
                    decreases vals.len() - i,
                {
                    let part = vals[i].to_vec();
                    append_strings(&mut out, &part);
                    assert(vals@.subrange(0, i + 1).drop_last() =~= vals@.subrange(0, i as int));
                    i = i + 1;
                }
                assert(vals@.subrange(0, vals@.len() as int) =~= vals@);
                out
            },
            ClassmapOrUnset::Unset(_) => {
                let r: Vec<String> = Vec::new();
                assert(texts_of(r@) =~= Seq::<Seq<char>>::empty());
                r
            },
        }
    }

    /// Check if empty.
    pub fn is_empty(&self) -> (r: bool)
        ensures
            r == (match *self {
                ClassmapOrUnset::Values(v) => v@.len() == 0,
                ClassmapOrUnset::Unset(_) => true,
            }),
    {
        match self {
            ClassmapOrUnset::Values(v) => v.len() == 0,
            ClassmapOrUnset::Unset(_) => true,
        }
    }
}

impl Default for ClassmapOrUnset {
    fn default() -> (r: Self)
        ensures
            r matches ClassmapOrUnset::Values(v) && v@.len() == 0,
    {
        ClassmapOrUnset::Values(Vec::new())
    }
}

/// Autoload configuration.
#[derive(Debug, Clone, Default)]
pub struct AutoloadJson {
    /// PSR-4 autoloading.
    pub psr4: MapOrUnset<String, PsrValue>,
    /// PSR-0 autoloading.
    pub psr0: MapOrUnset<String, PsrValue>,
    /// Classmap.
    pub classmap: ClassmapOrUnset,
    /// Files to include.
    pub files: VecOrUnset<String>,
    /// Excluded from classmap.
    pub exclude_from_classmap: VecOrUnset<String>,
}

/// Funding information.
#[derive(Debug, Clone)]
pub struct FundingJson {
    /// Funding type (github, patreon, etc.).
    pub funding_type: String,
    /// Funding URL.
    pub url: String,
}

/// Search response.
#[derive(Debug, Clone)]
pub struct SearchResponse {
    /// Search results.
    pub results: Vec<SearchResult>,
    /// Total results.
    pub total: u64,
    /// Next page URL.
    pub next: Option<String>,
}

/// Individual search result.
#[derive(Debug, Clone)]
pub struct SearchResult {
    /// Package name.
    pub name: String,
    /// Description.
    pub description: String,
    /// Package URL on Packagist.
    pub url: String,
    /// Repository URL.
    pub repository: Option<String>,
    /// Download count.
    pub downloads: u64,
    /// Favorites/stars count.
    pub favers: u64,
    /// Whether abandoned.
    pub abandoned: AbandonedValue,
}

/// Security advisory response: advisories by package name.
#[derive(Debug, Clone)]
pub struct SecurityAdvisoriesResponse {
    /// Advisories by package name.
    pub advisories: Vec<(String, Vec<SecurityAdvisory>)>,
}

/// Individual security advisory.
#[derive(Debug, Clone)]
pub struct SecurityAdvisory {
    /// Advisory ID.
    pub advisory_id: String,
    /// Package name.
    pub package_name: String,
    /// Title.
    pub title: String,
    /// Link to advisory.
    pub link: String,
    /// CVE ID if available.
    pub cve: Option<String>,
    /// Affected versions (Composer constraint).
    pub affected_versions: String,
    /// Advisory sources.
    pub sources: Vec<AdvisorySource>,
    /// When reported.
    pub reported_at: String,
    /// Composer repository.
    pub composer_repository: Option<String>,
    /// Severity (critical, high, medium, low).
    pub severity: Option<String>,
}

/// Advisory source.
#[derive(Debug, Clone)]
pub struct AdvisorySource {
    /// Source name.
    pub name: String,
    /// Remote ID.
    pub remote_id: String,
}

/// Changes response for tracking updates.
#[derive(Debug, Clone)]
pub struct ChangesResponse {
    /// Actions to perform.
    pub actions: Vec<ChangeAction>,
    /// Current timestamp.
    pub timestamp: Option<u64>,
    /// Error message if any.
    pub error: Option<String>,
}

/// Individual change action.
#[derive(Debug, Clone)]
pub struct ChangeAction {
    /// Action type (update, delete, resync).
    pub action_type: String,
    /// Package name.
    pub package: String,
    /// Unix timestamp.
    pub time: u64,
}

/// Package list response.
#[derive(Debug, Clone)]
pub enum PackageListResponse {
    /// Simple list of package names.
    Simple { package_names: Vec<String> },
    /// With additional fields, by package name.
    WithFields { packages: Vec<(String, PackageListEntry)> },
}

/// Package list entry with fields.
#[derive(Debug, Clone)]
pub struct PackageListEntry {
    /// Package type.
    pub package_type: Option<String>,
    /// Repository URL.
    pub repository: Option<String>,
    /// Abandoned status.
    pub abandoned: AbandonedValue,
}

/// Popular packages response.
#[derive(Debug, Clone)]
pub struct PopularPackagesResponse {
    /// Popular packages.
    pub packages: Vec<PopularPackage>,
    /// Total count.
    pub total: u64,
    /// Next page URL.
    pub next: Option<String>,
}

/// Popular package entry.
#[derive(Debug, Clone)]
pub struct PopularPackage {
    /// Package name.
    pub name: String,
    /// Description.
    pub description: String,
    /// Package URL.
    pub url: String,
    /// Download count.
    pub downloads: u64,
    /// Favorites count.
    pub favers: u64,
}

/// Statistics response.
#[derive(Debug, Clone)]
pub struct StatisticsResponse {
    /// Total stats.
    pub totals: TotalStats,
}

/// Total statistics.
#[derive(Debug, Clone, Copy)]
pub struct TotalStats {
    /// Total downloads.
    pub downloads: u64,
}

/// A field of minified metadata that is either given or the `__unset`
/// marker, by its contents.
pub enum Settable<T> {
    /// The given contents.
    Given(T),
    /// The marker text.
    Unset(Seq<char>),
}

impl<K: DeepView, V: DeepView> DeepView for MapOrUnset<K, V> {
    type V = Settable<Seq<(K::V, V::V)>>;

    open spec fn deep_view(&self) -> Self::V {
        match self {
            MapOrUnset::Entries(m) => Settable::Given(m.deep_view()),
            MapOrUnset::Unset(t) => Settable::Unset(t@),
        }
    }
}

impl<T: DeepView> DeepView for VecOrUnset<T> {
    type V = Settable<Seq<T::V>>;

    open spec fn deep_view(&self) -> Self::V {
        match self {
            VecOrUnset::Values(v) => Settable::Given(v.deep_view()),
            VecOrUnset::Unset(t) => Settable::Unset(t@),
        }
    }
}

impl<T: DeepView> DeepView for ValueOrUnset<T> {
    type V = Settable<T::V>;

    open spec fn deep_view(&self) -> Self::V {
        match self {
            ValueOrUnset::Value(v) => Settable::Given(v.deep_view()),
            ValueOrUnset::Unset(t) => Settable::Unset(t@),
        }
    }
}

impl DeepView for ClassmapOrUnset {
    type V = Settable<Seq<(Seq<char>, Seq<Seq<char>>, Seq<Seq<Seq<char>>>, nat)>>;

    open spec fn deep_view(&self) -> Self::V {
        match self {
            ClassmapOrUnset::Values(v) => Settable::Given(v.deep_view()),
            ClassmapOrUnset::Unset(t) => Settable::Unset(t@),
        }
    }
}

impl DeepView for ClassmapValue {
    /// The variant (0 single, 1 array, 2 nested) with its texts.
    type V = (Seq<char>, Seq<Seq<char>>, Seq<Seq<Seq<char>>>, nat);

    open spec fn deep_view(&self) -> Self::V {
        match self {
            ClassmapValue::Single(s) => (s@, Seq::empty(), Seq::empty(), 0),
            ClassmapValue::Array(a) => (Seq::empty(), a.deep_view(), Seq::empty(), 1),
            ClassmapValue::NestedArray(n) => (Seq::empty(), Seq::empty(), n.deep_view(), 2),
        }
    }
}

impl DeepView for PsrValue {
    /// The variant (0 several, 1 single) with its texts.
    type V = (Seq<Seq<char>>, Seq<char>, nat);

    open spec fn deep_view(&self) -> Self::V {
        match self {
            PsrValue::Multiple(v) => (v.deep_view(), Seq::empty(), 0),
            PsrValue::Single(s) => (Seq::empty(), s@, 1),
        }
    }
}

impl DeepView for LicenseValue {
    /// The variant (0 single, 1 several, 2 unspecified) with its texts.
    type V = (Seq<char>, Seq<Seq<char>>, nat);

    open spec fn deep_view(&self) -> Self::V {
        match self {
            LicenseValue::Single(s) => (s@, Seq::empty(), 0),
            LicenseValue::Multiple(v) => (Seq::empty(), v.deep_view(), 1),
            LicenseValue::Unspecified => (Seq::empty(), Seq::empty(), 2),
        }
    }
}

impl DeepView for AbandonedValue {
    /// The variant (0 flag, 1 replacement, 2 not given) with its contents.
    type V = (bool, Seq<char>, nat);

    open spec fn deep_view(&self) -> Self::V {
        match self {
            AbandonedValue::Boolean(b) => (*b, Seq::empty(), 0),
            AbandonedValue::Replacement(s) => (false, s@, 1),
            AbandonedValue::NotGiven => (false, Seq::empty(), 2),
        }
    }
}

impl DeepView for AuthorJson {
    type V = (Seq<char>, Option<Seq<char>>, Option<Seq<char>>, Option<Seq<char>>);

    open spec fn deep_view(&self) -> Self::V {
        (self.name@, self.email.deep_view(), self.homepage.deep_view(), self.role.deep_view())
    }
}

impl DeepView for SourceJson {
    type V = (Seq<char>, Seq<char>, Seq<char>);

    open spec fn deep_view(&self) -> Self::V {
        (self.source_type@, self.url@, self.reference@)
    }
}

impl DeepView for DistJson {
    type V = (Seq<char>, Seq<char>, Option<Seq<char>>, Option<Seq<char>>);

    open spec fn deep_view(&self) -> Self::V {
        (self.archive_type@, self.url@, self.shasum.deep_view(), self.reference.deep_view())
    }
}

impl DeepView for FundingJson {
    type V = (Seq<char>, Seq<char>);

    open spec fn deep_view(&self) -> Self::V {
        (self.funding_type@, self.url@)
    }
}

impl DeepView for AutoloadJson {
    type V = (
        Settable<Seq<(Seq<char>, (Seq<Seq<char>>, Seq<char>, nat))>>,
        Settable<Seq<(Seq<char>, (Seq<Seq<char>>, Seq<char>, nat))>>,
        Settable<Seq<(Seq<char>, Seq<Seq<char>>, Seq<Seq<Seq<char>>>, nat)>>,
        Settable<Seq<Seq<char>>>,
        Settable<Seq<Seq<char>>>,
    );

    open spec fn deep_view(&self) -> Self::V {
        (
            self.psr4.deep_view(),
            self.psr0.deep_view(),
            self.classmap.deep_view(),
            self.files.deep_view(),
            self.exclude_from_classmap.deep_view(),
        )
    }
}

impl<K: Duplicate, V: Duplicate> Duplicate for MapOrUnset<K, V> {
    fn duplicate(&self) -> (r: Self) {
        match self {
            MapOrUnset::Entries(m) => MapOrUnset::Entries(m.duplicate()),
            MapOrUnset::Unset(t) => MapOrUnset::Unset(owned(t.as_str())),
        }
    }
}

impl<T: Duplicate> Duplicate for VecOrUnset<T> {
    fn duplicate(&self) -> (r: Self) {
        match self {
            VecOrUnset::Values(v) => VecOrUnset::Values(v.duplicate()),
            VecOrUnset::Unset(t) => VecOrUnset::Unset(owned(t.as_str())),
        }
    }
}

impl<T: Duplicate> Duplicate for ValueOrUnset<T> {
    fn duplicate(&self) -> (r: Self) {
        match self {
            ValueOrUnset::Value(v) => ValueOrUnset::Value(v.duplicate()),
            ValueOrUnset::Unset(t) => ValueOrUnset::Unset(owned(t.as_str())),
        }
    }
}

impl Duplicate for ClassmapValue {
    fn duplicate(&self) -> (r: Self) {
        match self {
            ClassmapValue::Single(s) => ClassmapValue::Single(owned(s.as_str())),
            ClassmapValue::Array(a) => ClassmapValue::Array(a.duplicate()),
            ClassmapValue::NestedArray(n) => ClassmapValue::NestedArray(n.duplicate()),
        }
    }
}

impl Duplicate for ClassmapOrUnset {
    fn duplicate(&self) -> (r: Self) {
        match self {
            ClassmapOrUnset::Values(v) => ClassmapOrUnset::Values(v.duplicate()),
            ClassmapOrUnset::Unset(t) => ClassmapOrUnset::Unset(owned(t.as_str())),
        }
    }
}

impl Duplicate for PsrValue {
    fn duplicate(&self) -> (r: Self) {
        match self {
            PsrValue::Multiple(v) => PsrValue::Multiple(v.duplicate()),
            PsrValue::Single(s) => PsrValue::Single(owned(s.as_str())),
        }
    }
}

impl Duplicate for LicenseValue {
    fn duplicate(&self) -> (r: Self) {
        match self {
            LicenseValue::Single(s) => LicenseValue::Single(owned(s.as_str())),
            LicenseValue::Multiple(v) => LicenseValue::Multiple(v.duplicate()),
            LicenseValue::Unspecified => LicenseValue::Unspecified,
        }
    }
}

impl Duplicate for AbandonedValue {
    fn duplicate(&self) -> (r: Self) {
        match self {
            AbandonedValue::Boolean(b) => AbandonedValue::Boolean(*b),
            AbandonedValue::Replacement(s) => AbandonedValue::Replacement(owned(s.as_str())),
            AbandonedValue::NotGiven => AbandonedValue::NotGiven,
        }
    }
}

impl Duplicate for AuthorJson {
    fn duplicate(&self) -> (r: Self) {
        AuthorJson {
            name: owned(self.name.as_str()),
            email: self.email.duplicate(),
            homepage: self.homepage.duplicate(),
            role: self.role.duplicate(),
        }
    }
}

impl Duplicate for SourceJson {
    fn duplicate(&self) -> (r: Self) {
        SourceJson {
            source_type: owned(self.source_type.as_str()),
            url: owned(self.url.as_str()),
            reference: owned(self.reference.as_str()),
        }
    }
}

impl Duplicate for DistJson {
    fn duplicate(&self) -> (r: Self) {
        DistJson {
            archive_type: owned(self.archive_type.as_str()),
            url: owned(self.url.as_str()),
            shasum: self.shasum.duplicate(),
            reference: self.reference.duplicate(),
        }
    }
}

impl Duplicate for FundingJson {
    fn duplicate(&self) -> (r: Self) {
        FundingJson { funding_type: owned(self.funding_type.as_str()), url: owned(self.url.as_str()) }
    }
}

impl Duplicate for AutoloadJson {
    fn duplicate(&self) -> (r: Self) {
        AutoloadJson {
            psr4: self.psr4.duplicate(),
            psr0: self.psr0.duplicate(),
            classmap: self.classmap.duplicate(),
            files: self.files.duplicate(),
            exclude_from_classmap: self.exclude_from_classmap.duplicate(),
        }
    }
}

/// One version of a package in a Packagist metadata response. Each value
/// of `extra` is kept as its JSON text.
#[derive(Debug, Clone)]
pub struct PackageVersionJson {
    /// Package name.
    pub name: String,
    /// Version string.
    pub version: String,
    /// Normalized version.
    pub version_normalized: Option<String>,
    /// Package description.
    pub description: String,
    /// Package type (library, project, etc.).
    pub package_type: Option<String>,
    /// Keywords/tags.
    pub keywords: VecOrUnset<String>,
    /// Homepage URL.
    pub homepage: Option<String>,
    /// License(s).
    pub license: LicenseValue,
    /// Authors.
    pub authors: VecOrUnset<AuthorJson>,
    /// Repository/source info.
    pub source: Option<SourceJson>,
    /// Distribution info.
    pub dist: Option<DistJson>,
    /// Required dependencies.
    pub require: Option<MapOrUnset<String, String>>,
    /// Development dependencies.
    pub require_dev: Option<MapOrUnset<String, String>>,
    /// Suggested packages.
    pub suggest: Option<MapOrUnset<String, String>>,
    /// Conflicting packages.
    pub conflict: Option<MapOrUnset<String, String>>,
    /// Provided virtual packages.
    pub provide: Option<MapOrUnset<String, String>>,
    /// Replaced packages.
    pub replace: Option<MapOrUnset<String, String>>,
    /// Autoload configuration.
    pub autoload: ValueOrUnset<AutoloadJson>,
    /// Dev autoload configuration.
    pub autoload_dev: ValueOrUnset<AutoloadJson>,
    /// Extra metadata, each value as JSON text.
    pub extra: MapOrUnset<String, String>,
    /// Time (release date).
    pub time: Option<String>,
    /// Whether abandoned.
    pub abandoned: AbandonedValue,
    /// Notification URL.
    pub notification_url: Option<String>,
    /// Minimum stability.
    pub minimum_stability: Option<String>,
    /// Support info.
    pub support: MapOrUnset<String, String>,
    /// Funding info.
    pub funding: VecOrUnset<FundingJson>,
}

/// Whether a list field is empty or unset.
pub open spec fn list_missing<T>(v: VecOrUnset<T>) -> bool {
    match v {
        VecOrUnset::Values(x) => x@.len() == 0,
        VecOrUnset::Unset(_) => true,
    }
}

/// Whether `r` is `v` with the fields that the metadata minifier left out
/// of `v` taken from the preceding expanded version `p`: an empty name,
/// description, author, keyword or funding list, a missing type, homepage,
/// license or dependency map, and an unset support map or autoload
/// section. The version, its normalized form, source, dist, extra data,
/// time, abandonment, notification URL and minimum stability are never
/// inherited. Every field has the contents of the one it is taken from.
pub open spec fn expanded_from(r: PackageVersionJson, v: PackageVersionJson, p: Option<PackageVersionJson>) -> bool {
    let inh = p is Some;
    let q = p.unwrap();
    &&& (if inh && v.name@.len() == 0 { q.name } else { v.name })@ == r.name@
    &&& v.version@ == r.version@
    &&& v.version_normalized.deep_view() == r.version_normalized.deep_view()
    &&& (if inh && v.description@.len() == 0 { q.description } else { v.description })@ == r.description@
    &&& (if inh && v.package_type is None { q.package_type } else { v.package_type }).deep_view() == r.package_type.deep_view()
    &&& (if inh && list_missing(v.keywords) { q.keywords } else { v.keywords }).deep_view() == r.keywords.deep_view()
    &&& (if inh && v.homepage is None { q.homepage } else { v.homepage }).deep_view() == r.homepage.deep_view()
    &&& (if inh && v.license is Unspecified { q.license } else { v.license }).deep_view() == r.license.deep_view()
    &&& (if inh && list_missing(v.authors) { q.authors } else { v.authors }).deep_view() == r.authors.deep_view()
    &&& v.source.deep_view() == r.source.deep_view()
    &&& v.dist.deep_view() == r.dist.deep_view()
    &&& (if inh && v.require is None { q.require } else { v.require }).deep_view() == r.require.deep_view()
    &&& (if inh && v.require_dev is None { q.require_dev } else { v.require_dev }).deep_view() == r.require_dev.deep_view()
    &&& (if inh && v.suggest is None { q.suggest } else { v.suggest }).deep_view() == r.suggest.deep_view()
    &&& (if inh && v.conflict is None { q.conflict } else { v.conflict }).deep_view() == r.conflict.deep_view()
    &&& (if inh && v.provide is None { q.provide } else { v.provide }).deep_view() == r.provide.deep_view()
    &&& (if inh && v.replace is None { q.replace } else { v.replace }).deep_view() == r.replace.deep_view()
    &&& (if inh && v.autoload is Unset { q.autoload } else { v.autoload }).deep_view() == r.autoload.deep_view()
    &&& (if inh && v.autoload_dev is Unset { q.autoload_dev } else { v.autoload_dev }).deep_view() == r.autoload_dev.deep_view()
    &&& v.extra.deep_view() == r.extra.deep_view()
    &&& v.time.deep_view() == r.time.deep_view()
    &&& v.abandoned.deep_view() == r.abandoned.deep_view()
    &&& v.notification_url.deep_view() == r.notification_url.deep_view()
    &&& v.minimum_stability.deep_view() == r.minimum_stability.deep_view()
    &&& (if inh && v.support is Unset { q.support } else { v.support }).deep_view() == r.support.deep_view()
    &&& (if inh && list_missing(v.funding) { q.funding } else { v.funding }).deep_view() == r.funding.deep_view()
}

/// The value a field takes in the expansion of version `i`: the version's
/// own value where it gives one (the first version always counts as giving
/// its own), otherwise the value of the latest earlier version that gives
/// one.
pub open spec fn last_given<T>(
    vs: Seq<PackageVersionJson>,
    field: spec_fn(PackageVersionJson) -> T,
    omitted: spec_fn(T) -> bool,
    i: int,
) -> T
    decreases i,
{
    if i <= 0 || !omitted(field(vs[i])) {
        field(vs[i])
    } else {
        last_given(vs, field, omitted, i - 1)
    }
}

proof fn lemma_last_given<T: DeepView>(
    vs: Seq<PackageVersionJson>,
    r: Seq<PackageVersionJson>,
    field: spec_fn(PackageVersionJson) -> T,
    omitted: spec_fn(T) -> bool,
    i: int,
)
    requires
        0 <= i < r.len(),
        r.len() == vs.len(),
        forall|k: int|
            0 <= k < r.len() ==> (#[trigger] field(r[k])).deep_view() == (if k > 0 && omitted(field(vs[k])) {
                field(r[k - 1])
            } else {
                field(vs[k])
            }).deep_view(),
    ensures
        field(r[i]).deep_view() == last_given(vs, field, omitted, i).deep_view(),
    decreases i,
{
    assert(field(r[i]).deep_view() == (if i > 0 && omitted(field(vs[i])) {
        field(r[i - 1])
    } else {
        field(vs[i])
    }).deep_view());
    if i > 0 && omitted(field(vs[i])) {
        lemma_last_given(vs, r, field, omitted, i - 1);
    }
}

/// The minifier's rule, field by field: in the expansion of a list of
/// minified versions, every field that the minifier may leave out (name,
/// description, type, keywords, homepage, license, authors, each
/// dependency map, autoload sections, support, funding) has the value of the
/// latest version up to this one that gives it, so a version that omits
/// its conflict map keeps the one of the version before; every other field
/// is the version's own.
pub proof fn lemma_minifier_rule(versions: Seq<PackageVersionJson>, r: Seq<PackageVersionJson>)
    requires
        r.len() == versions.len(),
        forall|i: int|
            0 <= i < r.len() ==> expanded_from(
                #[trigger] r[i],
                versions[i],
                if i == 0 {
                    None
                } else {
                    Some(r[i - 1])
                },
            ),
    ensures
        forall|i: int| 0 <= i < r.len() ==> {
            &&& r[i].name.deep_view() == last_given(versions, (|v: PackageVersionJson| v.name), (|x: String| x@.len() == 0), i).deep_view()
            &&& r[i].description.deep_view() == last_given(versions, (|v: PackageVersionJson| v.description), (|x: String| x@.len() == 0), i).deep_view()
            &&& r[i].package_type.deep_view() == last_given(versions, (|v: PackageVersionJson| v.package_type), (|x: Option<String>| x is None), i).deep_view()
            &&& r[i].keywords.deep_view() == last_given(versions, (|v: PackageVersionJson| v.keywords), (|x: VecOrUnset<String>| list_missing(x)), i).deep_view()
            &&& r[i].homepage.deep_view() == last_given(versions, (|v: PackageVersionJson| v.homepage), (|x: Option<String>| x is None), i).deep_view()
            &&& r[i].license.deep_view() == last_given(versions, (|v: PackageVersionJson| v.license), (|x: LicenseValue| x is Unspecified), i).deep_view()
            &&& r[i].authors.deep_view() == last_given(versions, (|v: PackageVersionJson| v.authors), (|x: VecOrUnset<AuthorJson>| list_missing(x)), i).deep_view()
            &&& r[i].require.deep_view() == last_given(versions, (|v: PackageVersionJson| v.require), (|x: Option<MapOrUnset<String, String>>| x is None), i).deep_view()
            &&& r[i].require_dev.deep_view() == last_given(versions, (|v: PackageVersionJson| v.require_dev), (|x: Option<MapOrUnset<String, String>>| x is None), i).deep_view()
            &&& r[i].suggest.deep_view() == last_given(versions, (|v: PackageVersionJson| v.suggest), (|x: Option<MapOrUnset<String, String>>| x is None), i).deep_view()
            &&& r[i].conflict.deep_view() == last_given(versions, (|v: PackageVersionJson| v.conflict), (|x: Option<MapOrUnset<String, String>>| x is None), i).deep_view()
            &&& r[i].provide.deep_view() == last_given(versions, (|v: PackageVersionJson| v.provide), (|x: Option<MapOrUnset<String, String>>| x is None), i).deep_view()
            &&& r[i].replace.deep_view() == last_given(versions, (|v: PackageVersionJson| v.replace), (|x: Option<MapOrUnset<String, String>>| x is None), i).deep_view()
            &&& r[i].autoload.deep_view() == last_given(versions, (|v: PackageVersionJson| v.autoload), (|x: ValueOrUnset<AutoloadJson>| x is Unset), i).deep_view()
            &&& r[i].autoload_dev.deep_view() == last_given(versions, (|v: PackageVersionJson| v.autoload_dev), (|x: ValueOrUnset<AutoloadJson>| x is Unset), i).deep_view()
            &&& r[i].support.deep_view() == last_given(versions, (|v: PackageVersionJson| v.support), (|x: MapOrUnset<String, String>| x is Unset), i).deep_view()
            &&& r[i].funding.deep_view() == last_given(versions, (|v: PackageVersionJson| v.funding), (|x: VecOrUnset<FundingJson>| list_missing(x)), i).deep_view()
            &&& r[i].version.deep_view() == versions[i].version.deep_view()
            &&& r[i].version_normalized.deep_view() == versions[i].version_normalized.deep_view()
            &&& r[i].source.deep_view() == versions[i].source.deep_view()
            &&& r[i].dist.deep_view() == versions[i].dist.deep_view()
            &&& r[i].extra.deep_view() == versions[i].extra.deep_view()
            &&& r[i].time.deep_view() == versions[i].time.deep_view()
            &&& r[i].abandoned.deep_view() == versions[i].abandoned.deep_view()
            &&& r[i].notification_url.deep_view() == versions[i].notification_url.deep_view()
            &&& r[i].minimum_stability.deep_view() == versions[i].minimum_stability.deep_view()
        },
{
    assert forall|i: int| 0 <= i < r.len() implies {
        &&& r[i].name.deep_view() == last_given(versions, (|v: PackageVersionJson| v.name), (|x: String| x@.len() == 0), i).deep_view()
        &&& r[i].description.deep_view() == last_given(versions, (|v: PackageVersionJson| v.description), (|x: String| x@.len() == 0), i).deep_view()
        &&& r[i].package_type.deep_view() == last_given(versions, (|v: PackageVersionJson| v.package_type), (|x: Option<String>| x is None), i).deep_view()
        &&& r[i].keywords.deep_view() == last_given(versions, (|v: PackageVersionJson| v.keywords), (|x: VecOrUnset<String>| list_missing(x)), i).deep_view()
        &&& r[i].homepage.deep_view() == last_given(versions, (|v: PackageVersionJson| v.homepage), (|x: Option<String>| x is None), i).deep_view()
        &&& r[i].license.deep_view() == last_given(versions, (|v: PackageVersionJson| v.license), (|x: LicenseValue| x is Unspecified), i).deep_view()
        &&& r[i].authors.deep_view() == last_given(versions, (|v: PackageVersionJson| v.authors), (|x: VecOrUnset<AuthorJson>| list_missing(x)), i).deep_view()
        &&& r[i].require.deep_view() == last_given(versions, (|v: PackageVersionJson| v.require), (|x: Option<MapOrUnset<String, String>>| x is None), i).deep_view()
        &&& r[i].require_dev.deep_view() == last_given(versions, (|v: PackageVersionJson| v.require_dev), (|x: Option<MapOrUnset<String, String>>| x is None), i).deep_view()
        &&& r[i].suggest.deep_view() == last_given(versions, (|v: PackageVersionJson| v.suggest), (|x: Option<MapOrUnset<String, String>>| x is None), i).deep_view()
        &&& r[i].conflict.deep_view() == last_given(versions, (|v: PackageVersionJson| v.conflict), (|x: Option<MapOrUnset<String, String>>| x is None), i).deep_view()
        &&& r[i].provide.deep_view() == last_given(versions, (|v: PackageVersionJson| v.provide), (|x: Option<MapOrUnset<String, String>>| x is None), i).deep_view()
        &&& r[i].replace.deep_view() == last_given(versions, (|v: PackageVersionJson| v.replace), (|x: Option<MapOrUnset<String, String>>| x is None), i).deep_view()
        &&& r[i].autoload.deep_view() == last_given(versions, (|v: PackageVersionJson| v.autoload), (|x: ValueOrUnset<AutoloadJson>| x is Unset), i).deep_view()
        &&& r[i].autoload_dev.deep_view() == last_given(versions, (|v: PackageVersionJson| v.autoload_dev), (|x: ValueOrUnset<AutoloadJson>| x is Unset), i).deep_view()
        &&& r[i].support.deep_view() == last_given(versions, (|v: PackageVersionJson| v.support), (|x: MapOrUnset<String, String>| x is Unset), i).deep_view()
        &&& r[i].funding.deep_view() == last_given(versions, (|v: PackageVersionJson| v.funding), (|x: VecOrUnset<FundingJson>| list_missing(x)), i).deep_view()
        &&& r[i].version.deep_view() == versions[i].version.deep_view()
        &&& r[i].version_normalized.deep_view() == versions[i].version_normalized.deep_view()
        &&& r[i].source.deep_view() == versions[i].source.deep_view()
        &&& r[i].dist.deep_view() == versions[i].dist.deep_view()
        &&& r[i].extra.deep_view() == versions[i].extra.deep_view()
        &&& r[i].time.deep_view() == versions[i].time.deep_view()
        &&& r[i].abandoned.deep_view() == versions[i].abandoned.deep_view()
        &&& r[i].notification_url.deep_view() == versions[i].notification_url.deep_view()
        &&& r[i].minimum_stability.deep_view() == versions[i].minimum_stability.deep_view()
    } by {
        lemma_last_given(versions, r, (|v: PackageVersionJson| v.name), (|x: String| x@.len() == 0), i);
        lemma_last_given(versions, r, (|v: PackageVersionJson| v.description), (|x: String| x@.len() == 0), i);
        lemma_last_given(versions, r, (|v: PackageVersionJson| v.package_type), (|x: Option<String>| x is None), i);
        lemma_last_given(versions, r, (|v: PackageVersionJson| v.keywords), (|x: VecOrUnset<String>| list_missing(x)), i);
        lemma_last_given(versions, r, (|v: PackageVersionJson| v.homepage), (|x: Option<String>| x is None), i);
        lemma_last_given(versions, r, (|v: PackageVersionJson| v.license), (|x: LicenseValue| x is Unspecified), i);
        lemma_last_given(versions, r, (|v: PackageVersionJson| v.authors), (|x: VecOrUnset<AuthorJson>| list_missing(x)), i);
        lemma_last_given(versions, r, (|v: PackageVersionJson| v.require), (|x: Option<MapOrUnset<String, String>>| x is None), i);
        lemma_last_given(versions, r, (|v: PackageVersionJson| v.require_dev), (|x: Option<MapOrUnset<String, String>>| x is None), i);
        lemma_last_given(versions, r, (|v: PackageVersionJson| v.suggest), (|x: Option<MapOrUnset<String, String>>| x is None), i);
        lemma_last_given(versions, r, (|v: PackageVersionJson| v.conflict), (|x: Option<MapOrUnset<String, String>>| x is None), i);
        lemma_last_given(versions, r, (|v: PackageVersionJson| v.provide), (|x: Option<MapOrUnset<String, String>>| x is None), i);
        lemma_last_given(versions, r, (|v: PackageVersionJson| v.replace), (|x: Option<MapOrUnset<String, String>>| x is None), i);
        lemma_last_given(versions, r, (|v: PackageVersionJson| v.autoload), (|x: ValueOrUnset<AutoloadJson>| x is Unset), i);
        lemma_last_given(versions, r, (|v: PackageVersionJson| v.autoload_dev), (|x: ValueOrUnset<AutoloadJson>| x is Unset), i);
        lemma_last_given(versions, r, (|v: PackageVersionJson| v.support), (|x: MapOrUnset<String, String>| x is Unset), i);
        lemma_last_given(versions, r, (|v: PackageVersionJson| v.funding), (|x: VecOrUnset<FundingJson>| list_missing(x)), i);
    }
}

fn pick<T: Duplicate>(own: &T, prev: &T, inherit: bool) -> (r: T)
    ensures
        r.deep_view() == (if inherit { *prev } else { *own }).deep_view(),
{
    if inherit {
        prev.duplicate()
    } else {
        own.duplicate()
    }
}

fn expand_one(v: &PackageVersionJson, prev: Option<&PackageVersionJson>) -> (r: PackageVersionJson)
    ensures
        expanded_from(r, *v, match prev {
            Some(p) => Some(*p),
            None => None,
        }),
{
    match prev {
        None => PackageVersionJson {
            name: v.name.duplicate(),
            version: v.version.duplicate(),
            version_normalized: v.version_normalized.duplicate(),
            description: v.description.duplicate(),
            package_type: v.package_type.duplicate(),
            keywords: v.keywords.duplicate(),
            homepage: v.homepage.duplicate(),
            license: v.license.duplicate(),
            authors: v.authors.duplicate(),
            source: v.source.duplicate(),
            dist: v.dist.duplicate(),
            require: v.require.duplicate(),
            require_dev: v.require_dev.duplicate(),
            suggest: v.suggest.duplicate(),
            conflict: v.conflict.duplicate(),
            provide: v.provide.duplicate(),
            replace: v.replace.duplicate(),
            autoload: v.autoload.duplicate(),
            autoload_dev: v.autoload_dev.duplicate(),
            extra: v.extra.duplicate(),
            time: v.time.duplicate(),
            abandoned: v.abandoned.duplicate(),
            notification_url: v.notification_url.duplicate(),
            minimum_stability: v.minimum_stability.duplicate(),
            support: v.support.duplicate(),
            funding: v.funding.duplicate(),
        },
        Some(p) => PackageVersionJson {
            name: pick(&v.name, &p.name, v.name.as_str().unicode_len() == 0),
            version: v.version.duplicate(),
            version_normalized: v.version_normalized.duplicate(),
            description: pick(&v.description, &p.description, v.description.as_str().unicode_len() == 0),
            package_type: pick(&v.package_type, &p.package_type, v.package_type.is_none()),
            keywords: pick(&v.keywords, &p.keywords, v.keywords.is_empty()),
            homepage: pick(&v.homepage, &p.homepage, v.homepage.is_none()),
            license: pick(&v.license, &p.license, matches!(v.license, LicenseValue::Unspecified)),
            authors: pick(&v.authors, &p.authors, v.authors.is_empty()),
            source: v.source.duplicate(),
            dist: v.dist.duplicate(),
            require: pick(&v.require, &p.require, v.require.is_none()),
            require_dev: pick(&v.require_dev, &p.require_dev, v.require_dev.is_none()),
            suggest: pick(&v.suggest, &p.suggest, v.suggest.is_none()),
            conflict: pick(&v.conflict, &p.conflict, v.conflict.is_none()),
            provide: pick(&v.provide, &p.provide, v.provide.is_none()),
            replace: pick(&v.replace, &p.replace, v.replace.is_none()),
            autoload: pick(&v.autoload, &p.autoload, v.autoload.is_unset()),
            autoload_dev: pick(&v.autoload_dev, &p.autoload_dev, v.autoload_dev.is_unset()),
            extra: v.extra.duplicate(),
            time: v.time.duplicate(),
            abandoned: v.abandoned.duplicate(),
            notification_url: v.notification_url.duplicate(),
            minimum_stability: v.minimum_stability.duplicate(),
            support: pick(&v.support, &p.support, v.support.is_unset()),
            funding: pick(&v.funding, &p.funding, v.funding.is_empty()),
        },
    }
}

/// Expand minified package versions as the Composer metadata minifier
/// defines it: each version takes the fields that it leaves out from the
/// expanded version before it (see `expanded_from`).
pub fn expand_minified_versions(versions: &[PackageVersionJson]) -> (r: Vec<PackageVersionJson>)
    ensures
        r@.len() == versions@.len(),
        forall|i: int|
            0 <= i < r@.len() ==> expanded_from(
                #[trigger] r@[i],
                versions@[i],
                if i == 0 {
                    None
                } else {
                    Some(r@[i - 1])
                },
            ),
        forall|i: int| 0 <= i < r@.len() ==> {
            &&& r@[i].name.deep_view() == last_given(versions@, (|v: PackageVersionJson| v.name), (|x: String| x@.len() == 0), i).deep_view()
            &&& r@[i].description.deep_view() == last_given(versions@, (|v: PackageVersionJson| v.description), (|x: String| x@.len() == 0), i).deep_view()
            &&& r@[i].package_type.deep_view() == last_given(versions@, (|v: PackageVersionJson| v.package_type), (|x: Option<String>| x is None), i).deep_view()
            &&& r@[i].keywords.deep_view() == last_given(versions@, (|v: PackageVersionJson| v.keywords), (|x: VecOrUnset<String>| list_missing(x)), i).deep_view()
            &&& r@[i].homepage.deep_view() == last_given(versions@, (|v: PackageVersionJson| v.homepage), (|x: Option<String>| x is None), i).deep_view()
            &&& r@[i].license.deep_view() == last_given(versions@, (|v: PackageVersionJson| v.license), (|x: LicenseValue| x is Unspecified), i).deep_view()
            &&& r@[i].authors.deep_view() == last_given(versions@, (|v: PackageVersionJson| v.authors), (|x: VecOrUnset<AuthorJson>| list_missing(x)), i).deep_view()
            &&& r@[i].require.deep_view() == last_given(versions@, (|v: PackageVersionJson| v.require), (|x: Option<MapOrUnset<String, String>>| x is None), i).deep_view()
            &&& r@[i].require_dev.deep_view() == last_given(versions@, (|v: PackageVersionJson| v.require_dev), (|x: Option<MapOrUnset<String, String>>| x is None), i).deep_view()
            &&& r@[i].suggest.deep_view() == last_given(versions@, (|v: PackageVersionJson| v.suggest), (|x: Option<MapOrUnset<String, String>>| x is None), i).deep_view()
            &&& r@[i].conflict.deep_view() == last_given(versions@, (|v: PackageVersionJson| v.conflict), (|x: Option<MapOrUnset<String, String>>| x is None), i).deep_view()
            &&& r@[i].provide.deep_view() == last_given(versions@, (|v: PackageVersionJson| v.provide), (|x: Option<MapOrUnset<String, String>>| x is None), i).deep_view()
            &&& r@[i].replace.deep_view() == last_given(versions@, (|v: PackageVersionJson| v.replace), (|x: Option<MapOrUnset<String, String>>| x is None), i).deep_view()
            &&& r@[i].autoload.deep_view() == last_given(versions@, (|v: PackageVersionJson| v.autoload), (|x: ValueOrUnset<AutoloadJson>| x is Unset), i).deep_view()
            &&& r@[i].autoload_dev.deep_view() == last_given(versions@, (|v: PackageVersionJson| v.autoload_dev), (|x: ValueOrUnset<AutoloadJson>| x is Unset), i).deep_view()
            &&& r@[i].support.deep_view() == last_given(versions@, (|v: PackageVersionJson| v.support), (|x: MapOrUnset<String, String>| x is Unset), i).deep_view()
            &&& r@[i].funding.deep_view() == last_given(versions@, (|v: PackageVersionJson| v.funding), (|x: VecOrUnset<FundingJson>| list_missing(x)), i).deep_view()
            &&& r@[i].version.deep_view() == versions@[i].version.deep_view()
            &&& r@[i].version_normalized.deep_view() == versions@[i].version_normalized.deep_view()
            &&& r@[i].source.deep_view() == versions@[i].source.deep_view()
            &&& r@[i].dist.deep_view() == versions@[i].dist.deep_view()
            &&& r@[i].extra.deep_view() == versions@[i].extra.deep_view()
            &&& r@[i].time.deep_view() == versions@[i].time.deep_view()
            &&& r@[i].abandoned.deep_view() == versions@[i].abandoned.deep_view()
            &&& r@[i].notification_url.deep_view() == versions@[i].notification_url.deep_view()
            &&& r@[i].minimum_stability.deep_view() == versions@[i].minimum_stability.deep_view()
        },
{
    let mut out: Vec<PackageVersionJson> = Vec::new();
    let mut i: usize = 0;
    while i < versions.len()
        invariant
            i <= versions@.len(),
            out@.len() == i,
            forall|k: int|
                0 <= k < i ==> expanded_from(
                    #[trigger] out@[k],
                    versions@[k],
                    if k == 0 {
                        None
                    } else {
                        Some(out@[k - 1])
                    },
                ),
        decreases versions.len() - i,
    {
        let e = if i == 0 {
            expand_one(&versions[i], None)
        } else {
            expand_one(&versions[i], Some(&out[i - 1]))
        };
        out.push(e);
        i = i + 1;
    }
    proof {
        lemma_minifier_rule(versions@, out@);
    }
    out
}

} // verus!
