//! Repository kinds, authentication, inline packages, priorities and
//! package stability.
use vstd::prelude::*;
use crate::text::{
    chars_eq, chars_of, contains_chars, contains_seq, count_char, count_of, lowercase_of, owned,
    starts_with, starts_with_chars, to_lowercase, all_ascii, ascii_lower, ascii_upper,
};

verus! {

/// Repository type.
#[derive(Debug, Clone, Copy, PartialEq, Eq, Structural, Hash)]
pub enum RepositoryType {
    /// Composer repository (packagist-compatible).
    Composer,
    /// VCS repository (git, svn, hg).
    Vcs,
    /// Path repository (local directory).
    Path,
    /// Package repository (inline package definition).
    Package,
    /// Artifact repository (directory with ZIP/tar files).
    Artifact,
}

/// The name of a repository type, as written in configuration.
pub open spec fn repository_type_name(t: RepositoryType) -> Seq<char> {
    match t {
        RepositoryType::Composer => "composer"@,
        RepositoryType::Vcs => "vcs"@,
        RepositoryType::Path => "path"@,
        RepositoryType::Package => "package"@,
        RepositoryType::Artifact => "artifact"@,
    }
}

impl RepositoryType {
    /// The name of the repository type.
    pub fn to_string(&self) -> (r: String)
        ensures
            r@ == repository_type_name(*self),
    {
        match self {
            RepositoryType::Composer => owned("composer"),
            RepositoryType::Vcs => owned("vcs"),
            RepositoryType::Path => owned("path"),
            RepositoryType::Package => owned("package"),
            RepositoryType::Artifact => owned("artifact"),
        }
    }
}

impl Default for RepositoryType {
    fn default() -> (r: Self)
        ensures
            r == RepositoryType::Composer,
    {
        RepositoryType::Composer
    }
}

/// Authentication configuration.
#[derive(Debug, Clone)]
pub enum AuthConfig {
    /// HTTP Basic authentication.
    HttpBasic { username: String, password: String },
    /// Bearer token authentication.
    Bearer { token: String },
    /// SSH key authentication.
    Ssh { key_path: Option<String>, passphrase: Option<String> },
    /// GitHub OAuth token.
    GitHubOAuth { token: String },
    /// GitLab token.
    GitLabToken { token: String },
    /// Bitbucket app password.
    BitbucketOAuth { consumer_key: String, consumer_secret: String },
}

/// Inline distribution info.
#[derive(Debug, Clone)]
pub struct InlineDist {
    /// Download URL.
    pub url: String,
    /// Archive type (zip, tar).
    pub archive_type: String,
    /// SHA checksum.
    pub shasum: Option<String>,
    /// Reference.
    pub reference: Option<String>,
}

/// Inline source info.
#[derive(Debug, Clone)]
pub struct InlineSource {
    /// Repository URL.
    pub url: String,
    /// Source type (git, svn, hg).
    pub source_type: String,
    /// Reference (branch, tag, commit).
    pub reference: String,
}

/// Package search result.
#[derive(Debug, Clone)]
pub struct PackageSearchResult {
    /// Package name.
    pub name: String,
    /// Description.
    pub description: String,
    /// Download count.
    pub downloads: u64,
    /// Favorites/stars count.
    pub favers: u64,
    /// Repository URL.
    pub repository: Option<String>,
    /// Whether abandoned.
    pub abandoned: bool,
    /// Replacement package if abandoned.
    pub replacement: Option<String>,
}

/// Package stability level, from least to most stable.
#[derive(Debug, Clone, Copy, PartialEq, Eq, Structural, PartialOrd, Ord, Hash)]
pub enum Stability {
    /// Development version.
    Dev,
    /// Alpha version.
    Alpha,
    /// Beta version.
    Beta,
    /// Release candidate.
    Rc,
    /// Stable release.
    Stable,
}

/// Rank of a stability, from 0 for dev to 4 for stable.
pub open spec fn stability_rank(s: Stability) -> u8 {
    match s {
        Stability::Dev => 0,
        Stability::Alpha => 1,
        Stability::Beta => 2,
        Stability::Rc => 3,
        Stability::Stable => 4,
    }
}

/// Whether a text holds an ASCII digit.
pub open spec fn has_digit(s: Seq<char>) -> bool {
    exists|i: int| 0 <= i < s.len() && '0' <= #[trigger] s[i] && s[i] <= '9'
}

/// The stability a version string denotes, judged on its lower-case form:
/// `-dev` anywhere or a `dev-` prefix is dev; then `alpha`, `beta` and `rc`
/// anywhere; then the compact forms, a single `a` or a single `b` in a text
/// with a digit (such as `1.0.0a1`); anything else is stable.
pub open spec fn stability_of_version(version: Seq<char>) -> Stability {
    stability_of_lowered(lowercase_of(version))
}

/// The stability named by a version string already lower-cased.
pub open spec fn stability_of_lowered(lower: Seq<char>) -> Stability {
    if contains_seq(lower, "-dev"@) || starts_with(lower, "dev-"@) {
        Stability::Dev
    } else if contains_seq(lower, "-alpha"@) || contains_seq(lower, "alpha"@) {
        Stability::Alpha
    } else if contains_seq(lower, "-beta"@) || contains_seq(lower, "beta"@) {
        Stability::Beta
    } else if contains_seq(lower, "-rc"@) || contains_seq(lower, "rc"@) {
        Stability::Rc
    } else if count_char(lower, 'a') == 1 && has_digit(lower) {
        Stability::Alpha
    } else if count_char(lower, 'b') == 1 && has_digit(lower) {
        Stability::Beta
    } else {
        Stability::Stable
    }
}

/// Stability detection ignores the case of ASCII text: an ASCII version
/// string and its upper-cased form, lower-cased, are the same text, so they
/// name the same stability.
pub proof fn lemma_stability_ignores_ascii_case(version: Seq<char>)
    requires
        all_ascii(version),
    ensures
        all_ascii(version.map_values(|c: char| ascii_upper(c))),
        stability_of_lowered(version.map_values(|c: char| ascii_upper(c)).map_values(|c: char| ascii_lower(c)))
            == stability_of_lowered(version.map_values(|c: char| ascii_lower(c))),
{
    let up = version.map_values(|c: char| ascii_upper(c));
    assert forall|i: int| 0 <= i < up.len() implies (#[trigger] up[i] as u32) < 128 by {
        assert((version[i] as u32) < 128);
    }
    assert(up.map_values(|c: char| ascii_lower(c)) =~= version.map_values(|c: char| ascii_lower(c)));
}

/// The stability named by a constraint suffix such as `@dev` (any case).
pub open spec fn stability_of_suffix(suffix: Seq<char>) -> Option<Stability> {
    let lower = lowercase_of(suffix);
    if lower == "@dev"@ {
        Some(Stability::Dev)
    } else if lower == "@alpha"@ {
        Some(Stability::Alpha)
    } else if lower == "@beta"@ {
        Some(Stability::Beta)
    } else if lower == "@rc"@ {
        Some(Stability::Rc)
    } else if lower == "@stable"@ {
        Some(Stability::Stable)
    } else {
        None
    }
}

/// The name of a stability.
pub open spec fn stability_name(s: Stability) -> Seq<char> {
    match s {
        Stability::Dev => "dev"@,
        Stability::Alpha => "alpha"@,
        Stability::Beta => "beta"@,
        Stability::Rc => "RC"@,
        Stability::Stable => "stable"@,
    }
}

fn has_ascii_digit(s: &[char]) -> (r: bool)
    ensures
        r == has_digit(s@),
{
    let mut i: usize = 0;
    while i < s.len()
        invariant
            i <= s@.len(),
            forall|k: int| 0 <= k < i ==> !('0' <= #[trigger] s@[k] && s@[k] <= '9'),
        decreases s.len() - i,
    {
        if '0' <= s[i] && s[i] <= '9' {
            return true;
        }
        i = i + 1;
    }
    false
}

fn contains_str(hay: &[char], needle: &str) -> (r: bool)
    ensures
        r == contains_seq(hay@, needle@),
{
    let n = chars_of(needle);
    contains_chars(hay, n.as_slice())
}

fn text_is(s: &[char], lit: &str) -> (r: bool)
    ensures
        r == (s@ == lit@),
{
    let l = chars_of(lit);
    chars_eq(s, l.as_slice())
}

impl Stability {
    /// Parse stability from version string.
    pub fn from_version(version: &str) -> (r: Self)
        ensures
            r == stability_of_version(version@),
            all_ascii(version@) ==> r == stability_of_lowered(version@.map_values(|c: char| ascii_lower(c))),
    {
        let lower_s = to_lowercase(version);
        let lower = chars_of(lower_s.as_str());
        let l = lower.as_slice();
        let dev_prefix = chars_of("dev-");
        if contains_str(l, "-dev") || starts_with_chars(l, dev_prefix.as_slice()) {
            Stability::Dev
        } else if contains_str(l, "-alpha") || contains_str(l, "alpha") {
            Stability::Alpha
        } else if contains_str(l, "-beta") || contains_str(l, "beta") {
            Stability::Beta
        } else if contains_str(l, "-rc") || contains_str(l, "rc") {
            Stability::Rc
        } else if count_of(l, 'a') == 1 && has_ascii_digit(l) {
            Stability::Alpha
        } else if count_of(l, 'b') == 1 && has_ascii_digit(l) {
            Stability::Beta
        } else {
            Stability::Stable
        }
    }

    /// Parse stability from constraint suffix.
    pub fn from_constraint_suffix(suffix: &str) -> (r: Option<Self>)
        ensures
            r == stability_of_suffix(suffix@),
    {
        let lower_s = to_lowercase(suffix);
        let lower = chars_of(lower_s.as_str());
        let l = lower.as_slice();
        if text_is(l, "@dev") {
            Some(Stability::Dev)
        } else if text_is(l, "@alpha") {
            Some(Stability::Alpha)
        } else if text_is(l, "@beta") {
            Some(Stability::Beta)
        } else if text_is(l, "@rc") {
            Some(Stability::Rc)
        } else if text_is(l, "@stable") {
            Some(Stability::Stable)
        } else {
            None
        }
    }

    /// Rank of the stability, from 0 for dev to 4 for stable.
    pub fn rank(&self) -> (r: u8)
        ensures
            r == stability_rank(*self),
    {
        match self {
            Stability::Dev => 0,
            Stability::Alpha => 1,
            Stability::Beta => 2,
            Stability::Rc => 3,
            Stability::Stable => 4,
        }
    }

    /// Whether this stability is at least as stable as `min`.
    pub fn is_at_least(&self, min: &Stability) -> (r: bool)
        ensures
            r == (stability_rank(*self) >= stability_rank(*min)),
    {
        self.rank() >= min.rank()
    }

    /// The name of the stability.
    pub fn to_string(&self) -> (r: String)
        ensures
            r@ == stability_name(*self),
    {
        match self {
            Stability::Dev => owned("dev"),
            Stability::Alpha => owned("alpha"),
            Stability::Beta => owned("beta"),
            Stability::Rc => owned("RC"),
            Stability::Stable => owned("stable"),
        }
    }
}

impl Default for Stability {
    fn default() -> (r: Self)
        ensures
            r == Stability::Stable,
    {
        Stability::Stable
    }
}

/// Stability ranks order the levels totally: each level has its own rank,
/// and "at least as stable" is reflexive and transitive.
pub proof fn lemma_stability_order(a: Stability, b: Stability, c: Stability)
    ensures
        stability_rank(a) == stability_rank(b) ==> a == b,
        stability_rank(a) >= stability_rank(a),
        stability_rank(a) >= stability_rank(b) && stability_rank(b) >= stability_rank(c)
            ==> stability_rank(a) >= stability_rank(c),
        stability_rank(a) >= stability_rank(b) || stability_rank(b) >= stability_rank(a),
{
}

/// Repository priority for conflict resolution, from lowest to highest.
#[derive(Debug, Clone, Copy, PartialEq, Eq, Structural, PartialOrd, Ord)]
pub enum RepositoryPriority {
    /// Lowest priority (last in search order).
    Low,
    /// Normal priority (default).
    Normal,
    /// High priority (searched first).
    High,
    /// Canonical priority (takes precedence over all).
    Canonical,
}

/// The numeric weight of a priority.
pub open spec fn priority_weight(p: RepositoryPriority) -> u8 {
    match p {
        RepositoryPriority::Low => 0,
        RepositoryPriority::Normal => 50,
        RepositoryPriority::High => 100,
        RepositoryPriority::Canonical => 200,
    }
}

impl RepositoryPriority {
    /// The numeric weight of the priority: 0, 50, 100 or 200.
    pub fn weight(&self) -> (r: u8)
        ensures
            r == priority_weight(*self),
    {
        match self {
            RepositoryPriority::Low => 0,
            RepositoryPriority::Normal => 50,
            RepositoryPriority::High => 100,
            RepositoryPriority::Canonical => 200,
        }
    }

    /// The priority of a repository: canonical repositories take precedence,
    /// every other starts at normal.
    pub fn for_canonical(canonical: Option<bool>) -> (r: Self)
        ensures
            r == (if canonical == Some(true) {
                RepositoryPriority::Canonical
            } else {
                RepositoryPriority::Normal
            }),
    {
        match canonical {
            Some(true) => RepositoryPriority::Canonical,
            _ => RepositoryPriority::Normal,
        }
    }
}

impl Default for RepositoryPriority {
    fn default() -> (r: Self)
        ensures
            r == RepositoryPriority::Normal,
    {
        RepositoryPriority::Normal
    }
}

/// A parsed URL of the `url` crate, carried as it is.
#[verifier::external_type_specification]
#[verifier::external_body]
pub struct ExUrl(url::Url);

/// Repository-specific options. Paths are carried as strings.
#[derive(Debug, Clone, Default)]
pub struct RepositoryOptions {
    /// For Composer: whether to allow insecure (non-HTTPS) connections.
    pub allow_ssl_downgrade: bool,
    /// For Composer: canonical repository (packages from here take precedence).
    pub canonical: Option<bool>,
    /// For Composer: exclude packages matching these patterns.
    pub exclude: Vec<String>,
    /// For Composer: only include packages matching these patterns.
    pub only: Vec<String>,
    /// For VCS: specify branch to use.
    pub branch: Option<String>,
    /// For VCS: specify tag to use.
    pub tag: Option<String>,
    /// For VCS: disable SSH for Git.
    pub no_api: bool,
    /// For VCS: use shallow clone.
    pub shallow: bool,
    /// For Path: relative or absolute path.
    pub path: Option<String>,
    /// For Path: symlink mode (true = symlink, false = copy).
    pub symlink: Option<bool>,
    /// For Package: inline package definition.
    pub package: Option<InlinePackage>,
    /// For Artifact: directory containing archives.
    pub artifact_dir: Option<String>,
}

/// Inline package definition for the "package" repository type. Maps are
/// kept as pairs in the order given; the values of `autoload` and `extra`
/// are kept as their JSON text.
#[derive(Debug, Clone)]
pub struct InlinePackage {
    /// Package name.
    pub name: String,
    /// Package version.
    pub version: String,
    /// Distribution info.
    pub dist: Option<InlineDist>,
    /// Source info.
    pub source: Option<InlineSource>,
    /// Required dependencies.
    pub require: Vec<(String, String)>,
    /// Package type.
    pub package_type: Option<String>,
    /// Autoload configuration.
    pub autoload: Vec<(String, String)>,
    /// Other metadata.
    pub extra: Vec<(String, String)>,
}

/// Repository configuration.
#[derive(Debug, Clone)]
pub struct RepositoryConfig {
    /// Repository URL.
    pub url: Option<url::Url>,
    /// Repository type.
    pub repo_type: RepositoryType,
    /// Optional authentication.
    pub auth: Option<AuthConfig>,
    /// Repository options.
    pub options: RepositoryOptions,
}

/// Repository with priority and metadata.
#[derive(Debug, Clone)]
pub struct PrioritizedRepository {
    /// Repository configuration.
    pub config: RepositoryConfig,
    /// Priority.
    pub priority: RepositoryPriority,
    /// Display name.
    pub name: String,
    /// Whether enabled.
    pub enabled: bool,
}

impl PrioritizedRepository {
    /// A repository named `name`, enabled, whose priority is canonical when
    /// its options say it is canonical and normal otherwise.
    pub fn new(config: RepositoryConfig, name: &str) -> (r: Self)
        ensures
            r.config == config,
            r.priority == (if config.options.canonical == Some(true) {
                RepositoryPriority::Canonical
            } else {
                RepositoryPriority::Normal
            }),
            r.name@ == name@,
            r.enabled,
    {
        let priority = RepositoryPriority::for_canonical(config.options.canonical);
        PrioritizedRepository { config, priority, name: owned(name), enabled: true }
    }

    /// Set priority.
    pub fn with_priority(self, priority: RepositoryPriority) -> (r: Self)
        ensures
            r == (PrioritizedRepository { priority, ..self }),
    {
        PrioritizedRepository { priority, ..self }
    }

    /// Set enabled state.
    pub fn with_enabled(self, enabled: bool) -> (r: Self)
        ensures
            r == (PrioritizedRepository { enabled, ..self }),
    {
        PrioritizedRepository { enabled, ..self }
    }
}

} // verus!
