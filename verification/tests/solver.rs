use libretto::pubgrub::{Assignment, Incompatibility, PackageProvider, PartialSolution, PubGrubSolver, ResolutionResult, Term, Version, VersionConstraint, VersionRange};
use libretto::repository::types::Stability;
use libretto::resolver::{ResolutionError, ResolutionMode, ResolutionOptions, SetRelation};
use std::collections::HashMap;

struct TestProvider {
    packages: HashMap<String, Vec<(Version, Vec<(String, VersionConstraint)>)>>,
}

fn v(major: u64, minor: u64, patch: u64) -> Version {
    Version::new(major, minor, patch)
}

fn caret(major: u64) -> VersionConstraint {
    VersionConstraint::between(v(major, 0, 0), v(major + 1, 0, 0))
}

impl TestProvider {
    fn new() -> Self {
        Self { packages: HashMap::new() }
    }

    fn add_package(&mut self, name: &str, version: Version, deps: Vec<(&str, VersionConstraint)>) {
        let d: Vec<_> = deps.into_iter().map(|(n, c)| (n.to_string(), c)).collect();
        self.packages.entry(name.to_string()).or_default().push((version, d));
    }
}

impl PackageProvider for TestProvider {
    fn versions(&self, package: &str) -> Vec<Version> {
        self.packages.get(package).map(|vs| vs.iter().map(|(v, _)| *v).collect()).unwrap_or_default()
    }

    fn dependencies(&self, package: &str, version: &Version) -> Vec<(String, VersionConstraint)> {
        self.packages
            .get(package)
            .and_then(|vs| vs.iter().find(|(v, _)| v == version))
            .map(|(_, deps)| deps.iter().map(|(n, c)| (n.clone(), c.duplicate())).collect())
            .unwrap_or_default()
    }

    fn package_exists(&self, package: &str) -> bool {
        self.packages.contains_key(package)
    }
}

fn selected(result: &ResolutionResult, name: &str) -> Option<Version> {
    result.selections.iter().rev().find(|(n, _)| n == name).map(|(_, v)| *v)
}

#[test]
fn pubgrub_test_simple_resolution() {
    let mut provider = TestProvider::new();
    provider.add_package("a", v(1, 0, 0), vec![]);
    provider.add_package("a", v(2, 0, 0), vec![]);
    let solver = PubGrubSolver::new(provider, ResolutionOptions::default());
    let result = solver.solve(&[("a".to_string(), caret(1))]).unwrap();
    assert_eq!(selected(&result, "a"), Some(v(1, 0, 0)));
}

#[test]
fn test_dependency_chain() {
    let mut provider = TestProvider::new();
    provider.add_package("a", v(1, 0, 0), vec![("b", caret(1))]);
    provider.add_package("b", v(1, 0, 0), vec![("c", caret(1))]);
    provider.add_package("c", v(1, 0, 0), vec![]);
    let solver = PubGrubSolver::new(provider, ResolutionOptions::default());
    let result = solver.solve(&[("a".to_string(), caret(1))]).unwrap();
    assert!(selected(&result, "a").is_some());
    assert!(selected(&result, "b").is_some());
    assert!(selected(&result, "c").is_some());
}

#[test]
fn test_conflict() {
    let mut provider = TestProvider::new();
    provider.add_package("a", v(1, 0, 0), vec![("c", caret(1))]);
    provider.add_package("b", v(1, 0, 0), vec![("c", caret(2))]);
    provider.add_package("c", v(1, 0, 0), vec![]);
    provider.add_package("c", v(2, 0, 0), vec![]);
    let solver = PubGrubSolver::new(provider, ResolutionOptions::default());
    let result = solver.solve(&[("a".to_string(), caret(1)), ("b".to_string(), caret(1))]);
    assert!(result.is_err());
}

#[test]
fn pubgrub_test_prefer_lowest() {
    let mut provider = TestProvider::new();
    provider.add_package("a", v(1, 0, 0), vec![]);
    provider.add_package("a", v(1, 1, 0), vec![]);
    provider.add_package("a", v(1, 2, 0), vec![]);
    let options = ResolutionOptions { mode: ResolutionMode::PreferLowest, ..Default::default() };
    let solver = PubGrubSolver::new(provider, options);
    let result = solver.solve(&[("a".to_string(), caret(1))]).unwrap();
    assert_eq!(selected(&result, "a"), Some(v(1, 0, 0)));
}

#[test]
fn solver_prefers_highest_and_stable() {
    let mut provider = TestProvider::new();
    provider.add_package("a", v(1, 0, 0), vec![]);
    provider.add_package("a", v(1, 4, 0), vec![]);
    provider.add_package("a", Version::with_stability(1, 5, 0, Stability::Beta), vec![]);
    let highest = PubGrubSolver::new(provider, ResolutionOptions { min_stability: Stability::Dev, ..Default::default() });
    let result = highest.solve(&[("a".to_string(), caret(1))]).unwrap();
    assert_eq!(selected(&result, "a"), Some(Version::with_stability(1, 5, 0, Stability::Beta)));

    let mut provider = TestProvider::new();
    provider.add_package("a", v(1, 0, 0), vec![]);
    provider.add_package("a", v(1, 4, 0), vec![]);
    provider.add_package("a", Version::with_stability(1, 5, 0, Stability::Beta), vec![]);
    let stable = PubGrubSolver::new(
        provider,
        ResolutionOptions { mode: ResolutionMode::PreferStable, min_stability: Stability::Dev, ..Default::default() },
    );
    let result = stable.solve(&[("a".to_string(), caret(1))]).unwrap();
    assert_eq!(selected(&result, "a"), Some(v(1, 4, 0)));
}

#[test]
fn solver_reports_unknown_packages_and_limits() {
    let mut provider = TestProvider::new();
    provider.add_package("a", v(1, 0, 0), vec![("missing/x", caret(1))]);
    let solver = PubGrubSolver::new(provider, ResolutionOptions::default());
    match solver.solve(&[("nope".to_string(), caret(1))]) {
        Err(ResolutionError::PackageNotFound { name }) => assert_eq!(name, "nope"),
        other => panic!("unexpected {other:?}"),
    }
    match solver.solve(&[("a".to_string(), caret(1))]) {
        Err(ResolutionError::PackageNotFound { name }) => assert_eq!(name, "missing/x"),
        other => panic!("unexpected {other:?}"),
    }
    let empty = solver.solve(&[]).unwrap();
    assert!(empty.selections.is_empty());

    let mut provider = TestProvider::new();
    provider.add_package("a", v(1, 0, 0), vec![]);
    let capped = PubGrubSolver::new(provider, ResolutionOptions { max_iterations: 0, ..Default::default() });
    assert!(matches!(capped.solve(&[("a".to_string(), caret(1))]), Err(ResolutionError::TooManyIterations)));
}

#[test]
fn solver_skips_platform_requirements_and_records_requirements() {
    let mut provider = TestProvider::new();
    provider.add_package("a", v(1, 2, 0), vec![("php", caret(8)), ("b", caret(2))]);
    provider.add_package("b", v(2, 3, 1), vec![]);
    let solver = PubGrubSolver::new(provider, ResolutionOptions::default());
    let result = solver.solve(&[("a".to_string(), caret(1))]).unwrap();
    assert_eq!(selected(&result, "a"), Some(v(1, 2, 0)));
    assert_eq!(selected(&result, "b"), Some(v(2, 3, 1)));
    assert_eq!(result.selections.len(), result.requirements.len());
    assert!(result.selections.iter().all(|(n, _)| n != "root"));
}

#[test]
fn solver_explains_missing_versions() {
    let mut provider = TestProvider::new();
    provider.add_package("a", v(1, 0, 0), vec![]);
    let solver = PubGrubSolver::new(provider, ResolutionOptions::default());
    match solver.solve(&[("a".to_string(), caret(3))]) {
        Err(ResolutionError::NoMatchingVersions { explanation }) => {
            assert_eq!(explanation, "Resolution failed:\n  no versions of a match >=3.0.0 <4.0.0\n");
        }
        other => panic!("unexpected {other:?}"),
    }
}

#[test]
fn constraints_match_intersect_and_print() {
    let c = caret(1);
    assert!(c.matches(&v(1, 9, 9)));
    assert!(!c.matches(&v(2, 0, 0)));
    assert!(!c.matches(&Version::with_stability(1, 0, 0, Stability::Rc)));
    let both = c.intersect(&VersionConstraint::between(v(1, 5, 0), v(3, 0, 0)));
    assert!(both.matches(&v(1, 5, 0)) && !both.matches(&v(1, 4, 0)) && !both.matches(&v(2, 1, 0)));
    assert!(VersionConstraint::any().matches(&v(0, 0, 1)) && VersionConstraint::any().is_any());
    let exact = VersionConstraint::exact(v(1, 2, 3));
    assert!(exact.matches(&v(1, 2, 3)) && !exact.matches(&v(1, 2, 4)));
    assert_eq!(exact.to_string(), "=1.2.3");
    assert_eq!(both.to_string(), ">=1.0.0 <2.0.0, >=1.5.0 <3.0.0");
    let alt = VersionConstraint::any_of(&vec![
        VersionRange { low: v(1, 0, 0), high: None, high_inclusive: false },
        VersionRange { low: v(0, 1, 0), high: Some(v(0, 2, 0)), high_inclusive: true },
    ]);
    assert!(alt.matches(&v(0, 2, 0)) && alt.matches(&v(7, 0, 0)) && !alt.matches(&v(0, 3, 0)));
    assert_eq!(alt.to_string(), ">=1.0.0 || >=0.1.0 <=0.2.0");
    assert_eq!(Version::with_stability(2, 0, 0, Stability::Alpha).to_string(), "2.0.0-alpha");
    assert_eq!(VersionConstraint::any().to_string(), "*");
}

#[test]
fn terms_negate_and_satisfy() {
    let t = Term::positive("a", caret(1));
    assert!(t.satisfies(&v(1, 1, 0)) && !t.satisfies(&v(2, 0, 0)));
    let n = t.negate();
    assert!(!n.positive && n.satisfies(&v(2, 0, 0)) && !n.satisfies(&v(1, 1, 0)));
    assert_eq!(n.to_string(), "not(a >=1.0.0 <2.0.0)");
    assert_eq!(Term::negative("b", VersionConstraint::any()).to_string(), "not(b *)");
}

#[test]
fn satisfiability_and_term_relations() {
    assert!(caret(1).is_satisfiable());
    assert!(!caret(1).intersect(&caret(2)).is_satisfiable());
    assert!(caret(1).intersect(&VersionConstraint::between(v(1, 5, 0), v(4, 0, 0))).is_satisfiable());
    assert!(VersionConstraint::any().is_satisfiable());

    let a1 = Term::positive("a", caret(1));
    assert_eq!(a1.relation_to(&Term::positive("b", caret(1))), SetRelation::Disjoint);
    assert_eq!(a1.relation_to(&Term::positive("a", caret(2))), SetRelation::Disjoint);
    assert_eq!(a1.relation_to(&Term::negative("a", caret(1))), SetRelation::Overlapping);
    assert_eq!(
        Term::positive("a", VersionConstraint::any()).relation_to(&Term::negative("a", VersionConstraint::any())),
        SetRelation::Equal
    );
}

#[test]
fn incompatibilities_describe_themselves() {

    let root = Incompatibility::root(1, "a", caret(1));
    assert_eq!(root.to_string(), "not(a >=1.0.0 <2.0.0) is required");
    let dep = Incompatibility::dependency(2, "a", VersionConstraint::exact(v(1, 0, 0)), "b", caret(2));
    assert_eq!(dep.to_string(), "a =1.0.0 depends on not(b >=2.0.0 <3.0.0)");
    assert_eq!(dep.packages(), vec!["a", "b"]);
    assert_eq!(dep.explain(), "Resolution failed:\n  a =1.0.0 depends on not(b >=2.0.0 <3.0.0)\n");
    let assigned = vec![
        Assignment { package: "a".to_string(), version: v(1, 0, 0), decision_level: 1, is_decision: true, cause: None, requirements: vec![] },
        Assignment { package: "b".to_string(), version: v(3, 0, 0), decision_level: 2, is_decision: true, cause: None, requirements: vec![] },
    ];
    assert!(dep.is_satisfied_by(&assigned));
    assert_eq!(dep.find_unsatisfied_term(&assigned), None);
    assert_eq!(root.find_unsatisfied_term(&assigned), Some(0));
    assert!(!root.is_satisfied_by(&assigned));
}

#[test]
fn partial_solution_decides_and_backtracks() {

    let mut s = PartialSolution::new();
    s.decide("root".to_string(), v(0, 0, 0), vec![]);
    s.decide("a".to_string(), v(1, 0, 0), vec![("b".to_string(), caret(1))]);
    s.derive("b".to_string(), v(1, 1, 0), 7);
    assert_eq!(s.decision_level, 2);
    assert_eq!(s.assignments[2].cause, Some(7));
    assert!(!s.assignments[2].is_decision);
    let known = vec!["root".to_string(), "a".to_string(), "b".to_string(), "c".to_string()];
    assert_eq!(s.unassigned_package(&known), Some("c".to_string()));
    assert!(!s.is_complete(&known));
    s.add_positive("c".to_string(), caret(2));
    s.add_positive("c".to_string(), VersionConstraint::between(v(2, 5, 0), v(9, 0, 0)));
    s.add_negative("c".to_string(), caret(3));
    let eff = s.effective_constraint("c");
    assert!(eff.matches(&v(2, 6, 0)) && !eff.matches(&v(2, 1, 0)));
    s.backtrack(1);
    assert_eq!(s.decision_level, 1);
    assert_eq!(s.assignments.len(), 1);
    assert_eq!(s.unassigned_package(&known), Some("a".to_string()));
    s.decide("a".to_string(), v(1, 0, 0), vec![]);
    s.decide("b".to_string(), v(1, 0, 0), vec![]);
    s.decide("c".to_string(), v(2, 6, 0), vec![]);
    assert!(s.is_complete(&known));
}
