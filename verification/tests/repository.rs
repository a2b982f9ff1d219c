use libretto::repository::error::RepositoryError;
use libretto::repository::packagist::{
    expand_minified_versions, AbandonedValue, ClassmapOrUnset, ClassmapValue, LicenseValue, MapOrUnset,
    PackageVersionJson, PsrValue, ValueOrUnset, VecOrUnset,
};
use libretto::repository::providers::{detect_provider, owner_repo_from_path, parse_vcs_url, ProviderType};
use libretto::repository::types::{
    InlinePackage, PrioritizedRepository, RepositoryConfig, RepositoryOptions, RepositoryPriority, RepositoryType,
    Stability,
};
use libretto::resolver::{is_platform_package, ResolutionError, ResolutionOptions, SetRelation};

#[test]
fn test_repository_type_display() {
    assert_eq!(RepositoryType::Composer.to_string(), "composer");
    assert_eq!(RepositoryType::Vcs.to_string(), "vcs");
    assert_eq!(RepositoryType::Path.to_string(), "path");
}

#[test]
fn test_stability_from_version() {
    assert_eq!(Stability::from_version("1.0.0"), Stability::Stable);
    assert_eq!(Stability::from_version("1.0.0-dev"), Stability::Dev);
    assert_eq!(Stability::from_version("dev-master"), Stability::Dev);
    assert_eq!(Stability::from_version("1.0.0-alpha1"), Stability::Alpha);
    assert_eq!(Stability::from_version("1.0.0-beta2"), Stability::Beta);
    assert_eq!(Stability::from_version("1.0.0-RC1"), Stability::Rc);
    assert_eq!(Stability::from_version("1.0.0b2"), Stability::Beta);
}

#[test]
fn test_stability_from_constraint() {
    assert_eq!(Stability::from_constraint_suffix("@dev"), Some(Stability::Dev));
    assert_eq!(Stability::from_constraint_suffix("@stable"), Some(Stability::Stable));
    assert_eq!(Stability::from_constraint_suffix("invalid"), None);
    assert_eq!(Stability::from_constraint_suffix("@RC"), Some(Stability::Rc));
}

#[test]
fn test_stability_ordering() {
    assert!(Stability::Dev < Stability::Alpha);
    assert!(Stability::Alpha < Stability::Beta);
    assert!(Stability::Beta < Stability::Rc);
    assert!(Stability::Rc < Stability::Stable);
    assert!(Stability::Rc.is_at_least(&Stability::Beta));
    assert_eq!(Stability::Rc.to_string(), "RC");
    assert_eq!(Stability::from_version("1.0.0a1"), Stability::Alpha);
}

#[test]
fn test_priorities() {
    assert_eq!(RepositoryPriority::Canonical.weight(), 200);
    assert_eq!(RepositoryPriority::for_canonical(Some(true)), RepositoryPriority::Canonical);
    assert_eq!(RepositoryPriority::for_canonical(None), RepositoryPriority::Normal);
    assert!(RepositoryPriority::High > RepositoryPriority::Normal);
}

#[test]
fn test_license_value() {
    let single = LicenseValue::Single("MIT".to_string());
    assert_eq!(single.to_vec(), vec!["MIT"]);

    let multiple = LicenseValue::Multiple(vec!["MIT".to_string(), "Apache-2.0".to_string()]);
    assert_eq!(multiple.to_vec(), vec!["MIT", "Apache-2.0"]);
    assert!(LicenseValue::Unspecified.to_vec().is_empty());
}

#[test]
fn test_abandoned_value() {
    let not_abandoned = AbandonedValue::Boolean(false);
    assert!(!not_abandoned.is_abandoned());

    let abandoned = AbandonedValue::Boolean(true);
    assert!(abandoned.is_abandoned());

    let replacement = AbandonedValue::Replacement("symfony/console".to_string());
    assert!(replacement.is_abandoned());
    assert_eq!(replacement.replacement(), Some("symfony/console"));
}

#[test]
fn test_psr_value() {
    let single = PsrValue::Single("src/".to_string());
    assert_eq!(single.to_vec(), vec!["src/"]);

    let multiple = PsrValue::Multiple(vec!["src/".to_string(), "lib/".to_string()]);
    assert_eq!(multiple.to_vec(), vec!["src/", "lib/"]);
}

#[test]
fn test_unset_fields() {
    let unset: MapOrUnset<String, String> = MapOrUnset::Unset("__unset".to_string());
    assert!(unset.is_unset());
    assert!(unset.as_map().is_empty());
    let map = MapOrUnset::Entries(vec![("a".to_string(), "b".to_string())]);
    assert_eq!(map.as_map(), vec![("a".to_string(), "b".to_string())]);
    let v: VecOrUnset<String> = VecOrUnset::Unset("__unset".to_string());
    assert!(v.is_empty() && v.is_unset());
    let classmap = ClassmapOrUnset::Values(vec![
        ClassmapValue::Single("a".to_string()),
        ClassmapValue::NestedArray(vec![vec!["b".to_string()], vec!["c".to_string(), "d".to_string()]]),
    ]);
    assert_eq!(classmap.to_vec(), vec!["a", "b", "c", "d"]);
    assert!(!classmap.is_empty());
}

#[test]
fn test_parse_vcs_url() {
    let (owner, repo) = parse_vcs_url("https://github.com/symfony/console").unwrap();
    assert_eq!(owner, "symfony");
    assert_eq!(repo, "console");

    let (owner, repo) = parse_vcs_url("https://github.com/symfony/console.git").unwrap();
    assert_eq!(owner, "symfony");
    assert_eq!(repo, "console");
    assert!(parse_vcs_url("https://github.com/only").is_none());
    assert!(parse_vcs_url("not a url").is_none());
    assert_eq!(
        owner_repo_from_path("//a/b.git.git"),
        Some(("a".to_string(), "b".to_string()))
    );
}

#[test]
fn test_detect_provider() {
    assert_eq!(detect_provider("https://github.com/owner/repo"), Some(ProviderType::GitHub));
    assert_eq!(detect_provider("https://gitlab.com/owner/repo"), Some(ProviderType::GitLab));
    assert_eq!(detect_provider("https://bitbucket.org/owner/repo"), Some(ProviderType::Bitbucket));
    assert_eq!(detect_provider("https://example.com/owner/repo"), None);
    assert_eq!(ProviderType::GitLab.to_string(), "GitLab");
}

#[test]
fn test_error_messages() {
    let e = RepositoryError::PackageNotFound { name: "a/b".to_string(), repositories: vec![] };
    assert_eq!(e.to_string(), "Package 'a/b' not found in any repository");
    let e = RepositoryError::PackageNotFound {
        name: "a/b".to_string(),
        repositories: vec!["packagist".to_string(), "local".to_string()],
    };
    assert_eq!(e.to_string(), "Package 'a/b' not found in repositories: packagist, local");
    let e = RepositoryError::Network { url: "u".to_string(), message: "m".to_string(), status: Some(404) };
    assert_eq!(e.to_string(), "HTTP 404 from u: m");
    let e = RepositoryError::RateLimited { url: "u".to_string(), retry_after: Some(60) };
    assert_eq!(e.to_string(), "Rate limited by u, retry after 60s");
    let e = RepositoryError::Timeout { url: "u".to_string(), timeout_secs: 30 };
    assert_eq!(e.to_string(), "Request to u timed out after 30s");
}

#[test]
fn resolver_building_blocks() {
    assert!(is_platform_package("php"));
    assert!(is_platform_package("ext-json"));
    assert!(is_platform_package("composer-plugin-api"));
    assert!(!is_platform_package("phpunit/phpunit"));
    assert_eq!(SetRelation::Subset.flip(), SetRelation::Superset);
    let e = ResolutionError::CircularDependency { cycle: vec!["a".to_string(), "b".to_string(), "a".to_string()] };
    assert_eq!(e.to_string(), "circular dependency: a -> b -> a");
    assert_eq!(ResolutionOptions::default().max_iterations, 100_000);
}

fn bare_version(version: &str) -> PackageVersionJson {
    PackageVersionJson {
        name: String::new(),
        version: version.to_string(),
        version_normalized: None,
        description: String::new(),
        package_type: None,
        keywords: VecOrUnset::default(),
        homepage: None,
        license: LicenseValue::default(),
        authors: VecOrUnset::default(),
        source: None,
        dist: None,
        require: None,
        require_dev: None,
        suggest: None,
        conflict: None,
        provide: None,
        replace: None,
        autoload: ValueOrUnset::default(),
        autoload_dev: ValueOrUnset::default(),
        extra: MapOrUnset::default(),
        time: None,
        abandoned: AbandonedValue::default(),
        notification_url: None,
        minimum_stability: None,
        support: MapOrUnset::default(),
        funding: VecOrUnset::default(),
    }
}

#[test]
fn test_expand_minified() {
    let mut first = bare_version("1.0.0");
    first.name = "vendor/pkg".to_string();
    first.description = "A package".to_string();
    first.license = LicenseValue::Single("MIT".to_string());
    let minified = vec![first, bare_version("1.1.0")];

    let expanded = expand_minified_versions(&minified);
    assert_eq!(expanded.len(), 2);
    assert_eq!(expanded[1].name, "vendor/pkg");
    assert_eq!(expanded[1].description, "A package");
}

#[test]
fn expand_minified_keeps_explicit_and_unset_fields() {
    let mut first = bare_version("2.0.0");
    first.name = "acme/lib".to_string();
    first.require = Some(MapOrUnset::Entries(vec![("php".to_string(), ">=8.1".to_string())]));
    first.homepage = Some("https://acme.test".to_string());
    first.time = Some("2024-01-01".to_string());
    let mut second = bare_version("2.1.0");
    second.require = Some(MapOrUnset::Unset("__unset".to_string()));
    let third = bare_version("2.2.0");
    let expanded = expand_minified_versions(&[first, second, third]);
    assert_eq!(expanded.len(), 3);
    assert_eq!(expanded[2].name, "acme/lib");
    assert_eq!(expanded[1].version, "2.1.0");
    assert!(matches!(expanded[1].require, Some(MapOrUnset::Unset(_))));
    assert!(matches!(expanded[2].require, Some(MapOrUnset::Unset(_))));
    assert_eq!(expanded[2].homepage.as_deref(), Some("https://acme.test"));
    assert_eq!(expanded[1].time, None);
    assert!(expand_minified_versions(&[]).is_empty());
}

#[test]
fn prioritized_repository_from_config() {
    let mut options = RepositoryOptions::default();
    options.canonical = Some(true);
    options.package = Some(InlinePackage {
        name: "acme/pkg".to_string(),
        version: "1.0.0".to_string(),
        dist: None,
        source: None,
        require: vec![("php".to_string(), ">=8.1".to_string())],
        package_type: Some("library".to_string()),
        autoload: vec![],
        extra: vec![("branch-alias".to_string(), "{}".to_string())],
    });
    let config = RepositoryConfig {
        url: Some(url::Url::parse("https://repo.example.org").unwrap()),
        repo_type: RepositoryType::Package,
        auth: None,
        options,
    };
    let repo = PrioritizedRepository::new(config.clone(), "inline");
    assert_eq!(repo.priority, RepositoryPriority::Canonical);
    assert!(repo.enabled);
    assert_eq!(repo.name, "inline");
    let repo = repo.with_priority(RepositoryPriority::Low).with_enabled(false);
    assert_eq!(repo.priority, RepositoryPriority::Low);
    assert!(!repo.enabled);
    let mut plain = config;
    plain.options.canonical = None;
    assert_eq!(PrioritizedRepository::new(plain, "p").priority, RepositoryPriority::Normal);
}

#[test]
fn test_version() {
    assert!(!libretto::repository::VERSION.is_empty());
}
