//! VCS hosting providers: telling them apart by host and reading the owner
//! and repository out of a repository URL.
use vstd::prelude::*;
use crate::text::{chars_of, contains_chars, contains_seq, occurs_at, owned, split_chars, split_on, string_of, ends_with, ends_with_chars};

verus! {

/// The path of a URL text as the `url` crate parses it (`Url::path`), or
/// `None` when the text is not a valid URL.
pub uninterp spec fn url_path_of(text: Seq<char>) -> Option<Seq<char>>;

/// The host of a URL text as the `url` crate parses it (`Url::host_str`),
/// or `None` when the text is not a valid URL or has no host.
pub uninterp spec fn url_host_of(text: Seq<char>) -> Option<Seq<char>>;

/// `url::Url::parse` followed by `Url::path`: the path of the parsed URL.
#[verifier::external_body]
fn parsed_url_path(text: &str) -> (r: Option<String>)
    ensures
        match r {
            Some(p) => url_path_of(text@) == Some(p@),
            None => url_path_of(text@) is None,
        },
{
    match url::Url::parse(text) {
        Ok(u) => Some(u.path().to_string()),
        Err(_) => None,
    }
}

/// `url::Url::parse` followed by `Url::host_str`: the host of the parsed
/// URL.
#[verifier::external_body]
fn parsed_url_host(text: &str) -> (r: Option<String>)
    ensures
        match r {
            Some(h) => url_host_of(text@) == Some(h@),
            None => url_host_of(text@) is None,
        },
{
    match url::Url::parse(text) {
        Ok(u) => u.host_str().map(|h| h.to_string()),
        Err(_) => None,
    }
}

/// VCS provider type.
#[derive(Debug, Clone, Copy, PartialEq, Eq, Structural)]
pub enum ProviderType {
    /// GitHub (github.com or GitHub Enterprise).
    GitHub,
    /// GitLab (gitlab.com or self-hosted).
    GitLab,
    /// Bitbucket (bitbucket.org or Bitbucket Server).
    Bitbucket,
}

/// The display name of a provider.
pub open spec fn provider_name(p: ProviderType) -> Seq<char> {
    match p {
        ProviderType::GitHub => "GitHub"@,
        ProviderType::GitLab => "GitLab"@,
        ProviderType::Bitbucket => "Bitbucket"@,
    }
}

impl ProviderType {
    /// The display name of the provider.
    pub fn to_string(&self) -> (r: String)
        ensures
            r@ == provider_name(*self),
    {
        match self {
            ProviderType::GitHub => owned("GitHub"),
            ProviderType::GitLab => owned("GitLab"),
            ProviderType::Bitbucket => owned("Bitbucket"),
        }
    }
}

/// The provider a host belongs to: a host naming `github.com` or any
/// `github.` domain is GitHub, likewise for GitLab and Bitbucket, checked
/// in that order.
pub open spec fn provider_for(host: Seq<char>) -> Option<ProviderType> {
    if contains_seq(host, "github.com"@) || contains_seq(host, "github."@) {
        Some(ProviderType::GitHub)
    } else if contains_seq(host, "gitlab.com"@) || contains_seq(host, "gitlab."@) {
        Some(ProviderType::GitLab)
    } else if contains_seq(host, "bitbucket.org"@) || contains_seq(host, "bitbucket."@) {
        Some(ProviderType::Bitbucket)
    } else {
        None
    }
}

/// A needle that occurs in a longer needle occurs wherever that one does.
proof fn lemma_contains_prefix(hay: Seq<char>, long: Seq<char>, short: Seq<char>)
    requires
        short.len() <= long.len(),
        long.subrange(0, short.len() as int) == short,
        contains_seq(hay, long),
    ensures
        contains_seq(hay, short),
{
    let i = choose|i: int| occurs_at(hay, long, i);
    assert(hay.subrange(i, i + short.len()) =~= long.subrange(0, short.len() as int));
    assert(occurs_at(hay, short, i));
}

/// Provider detection by host markers: a host naming `github.` is GitHub
/// (GitHub Enterprise included); otherwise one naming `gitlab.` is GitLab
/// (self-hosted included); otherwise one naming `bitbucket.` is Bitbucket;
/// a host naming none of the three belongs to no known provider.
pub proof fn lemma_provider_markers(host: Seq<char>)
    ensures
        contains_seq(host, "github."@) ==> provider_for(host) == Some(ProviderType::GitHub),
        !contains_seq(host, "github."@) && contains_seq(host, "gitlab."@) ==> provider_for(host) == Some(ProviderType::GitLab),
        !contains_seq(host, "github."@) && !contains_seq(host, "gitlab."@) && contains_seq(host, "bitbucket."@)
            ==> provider_for(host) == Some(ProviderType::Bitbucket),
        !contains_seq(host, "github."@) && !contains_seq(host, "gitlab."@) && !contains_seq(host, "bitbucket."@)
            ==> provider_for(host) is None,
{
    reveal_strlit("github.com");
    reveal_strlit("github.");
    reveal_strlit("gitlab.com");
    reveal_strlit("gitlab.");
    reveal_strlit("bitbucket.org");
    reveal_strlit("bitbucket.");
    if contains_seq(host, "github.com"@) {
        assert("github.com"@.subrange(0, 7) =~= "github."@);
        lemma_contains_prefix(host, "github.com"@, "github."@);
    }
    if contains_seq(host, "gitlab.com"@) {
        assert("gitlab.com"@.subrange(0, 7) =~= "gitlab."@);
        lemma_contains_prefix(host, "gitlab.com"@, "gitlab."@);
    }
    if contains_seq(host, "bitbucket.org"@) {
        assert("bitbucket.org"@.subrange(0, 10) =~= "bitbucket."@);
        lemma_contains_prefix(host, "bitbucket.org"@, "bitbucket."@);
    }
}

fn contains_str(hay: &[char], needle: &str) -> (r: bool)
    ensures
        r == contains_seq(hay@, needle@),
{
    let n = chars_of(needle);
    contains_chars(hay, n.as_slice())
}

/// The provider a host belongs to.
pub fn provider_for_host(host: &str) -> (r: Option<ProviderType>)
    ensures
        r == provider_for(host@),
{
    let h = chars_of(host);
    let s = h.as_slice();
    if contains_str(s, "github.com") || contains_str(s, "github.") {
        Some(ProviderType::GitHub)
    } else if contains_str(s, "gitlab.com") || contains_str(s, "gitlab.") {
        Some(ProviderType::GitLab)
    } else if contains_str(s, "bitbucket.org") || contains_str(s, "bitbucket.") {
        Some(ProviderType::Bitbucket)
    } else {
        None
    }
}

/// Detect the VCS provider of a repository URL from its host.
pub fn detect_provider(url: &str) -> (r: Option<ProviderType>)
    ensures
        r == (match url_host_of(url@) {
            Some(h) => provider_for(h),
            None => None,
        }),
{
    match parsed_url_host(url) {
        Some(h) => provider_for_host(h.as_str()),
        None => None,
    }
}

/// `s` without all its leading `/` (`trim_start_matches('/')`).
pub open spec fn strip_leading_slashes(s: Seq<char>) -> Seq<char>
    decreases s.len(),
{
    if s.len() > 0 && s[0] == '/' {
        strip_leading_slashes(s.drop_first())
    } else {
        s
    }
}

/// `s` without all its trailing `.git` (`trim_end_matches(".git")`).
pub open spec fn strip_git_suffixes(s: Seq<char>) -> Seq<char>
    decreases s.len(),
{
    if ends_with(s, seq!['.', 'g', 'i', 't']) {
        strip_git_suffixes(s.subrange(0, s.len() - 4))
    } else {
        s
    }
}

/// Owner and repository named by a URL path: leading slashes and trailing
/// `.git` are dropped and the rest is split on `/`; the first two fields
/// are owner and repository.
pub open spec fn owner_repo_of(path: Seq<char>) -> Option<(Seq<char>, Seq<char>)> {
    let parts = split_on(strip_git_suffixes(strip_leading_slashes(path)), '/', '/');
    if parts.len() >= 2 {
        Some((parts[0], parts[1]))
    } else {
        None
    }
}

fn strip_path(path: &[char]) -> (r: Vec<char>)
    ensures
        r@ == strip_git_suffixes(strip_leading_slashes(path@)),
{
    let mut a: usize = 0;
    assert(path@.subrange(0, path@.len() as int) =~= path@);
    while a < path.len() && path[a] == '/'
        invariant
            a <= path@.len(),
            strip_leading_slashes(path@) == strip_leading_slashes(path@.subrange(a as int, path@.len() as int)),
        decreases path.len() - a,
    {
        assert(path@.subrange(a as int, path@.len() as int).drop_first() =~= path@.subrange(a + 1, path@.len() as int));
        a = a + 1;
    }
    let ghost t = path@.subrange(a as int, path@.len() as int);
    assert(strip_leading_slashes(t) == t);
    let mut b: usize = path.len();
    let git: Vec<char> = vec!['.', 'g', 'i', 't'];
    assert(git@ =~= seq!['.', 'g', 'i', 't']);
    loop
        invariant
            a <= b <= path@.len(),
            git@ == seq!['.', 'g', 'i', 't'],
            strip_git_suffixes(t) == strip_git_suffixes(path@.subrange(a as int, b as int)),
            t == path@.subrange(a as int, path@.len() as int),
            strip_leading_slashes(path@) == t,
        decreases b,
    {
        let cur = crate::text::slice_chars(path, a, b);
        if ends_with_chars(cur.as_slice(), git.as_slice()) {
            assert(cur@.subrange(0, cur@.len() - 4) =~= path@.subrange(a as int, b - 4));
            b = b - 4;
        } else {
            assert(strip_git_suffixes(cur@) == cur@);
            return cur;
        }
    }
}

/// Parse a repository URL into owner and repository name.
pub fn parse_vcs_url(url: &str) -> (r: Option<(String, String)>)
    ensures
        match r {
            Some((owner, repo)) => match url_path_of(url@) {
                Some(p) => owner_repo_of(p) == Some((owner@, repo@)),
                None => false,
            },
            None => match url_path_of(url@) {
                Some(p) => owner_repo_of(p) is None,
                None => true,
            },
        },
{
    match parsed_url_path(url) {
        Some(p) => owner_repo_from_path(p.as_str()),
        None => None,
    }
}

/// Owner and repository named by a URL path.
pub fn owner_repo_from_path(path: &str) -> (r: Option<(String, String)>)
    ensures
        match r {
            Some((owner, repo)) => owner_repo_of(path@) == Some((owner@, repo@)),
            None => owner_repo_of(path@) is None,
        },
{
    let chars = chars_of(path);
    let stripped = strip_path(chars.as_slice());
    let parts = split_chars(stripped.as_slice(), '/', '/');
    if parts.len() >= 2 {
        Some((string_of(parts[0].as_slice()), string_of(parts[1].as_slice())))
    } else {
        None
    }
}

} // verus!
