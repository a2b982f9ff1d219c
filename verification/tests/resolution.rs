use libretto::repository::types::Stability;
use libretto::resolution::{build_resolution, topological_sort, DistInfo, Resolution};
use libretto::resolver::{fetch_step, root_requirements, transitive_step, FetchEvent, FetchOutcome, FetchState, PendingPackage, TransitiveState};
use std::time::Duration;

fn s(v: &str) -> String {
    v.to_string()
}

fn names(v: &[&str]) -> Vec<String> {
    v.iter().map(|x| x.to_string()).collect()
}

fn chain() -> Resolution {
    let selected = vec![
        (s("test/c"), s("1.0.0")),
        (s("__root__/__root__"), s("0.0.0")),
        (s("test/a"), s("1.1.0")),
        (s("test/b"), s("1.0.0")),
    ];
    let deps = vec![
        names(&["test/a", "test/b"]),
        names(&["test/c"]),
        names(&[]),
        names(&["test/a", "php"]),
    ];
    let dist = vec![DistInfo::default(), DistInfo::default(), DistInfo::default(), DistInfo::default()];
    build_resolution(&selected, &deps, &names(&["test/b"]), &dist, names(&["php"]), Duration::from_secs(2))
}

fn position(r: &Resolution, name: &str) -> usize {
    r.packages.iter().position(|p| p.name == name).unwrap()
}

#[test]
fn dependencies_install_first() {
    let r = chain();
    assert_eq!(r.len(), 3);
    assert!(!r.is_empty());
    let a = position(&r, "test/a");
    let b = position(&r, "test/b");
    let c = position(&r, "test/c");
    assert!(a < b);
    assert!(b < c);
    assert_eq!(r.installation_order().len(), 3);
    assert_eq!(r.platform_packages, vec!["php"]);
    assert_eq!(r.duration, Duration::from_secs(2));
}

#[test]
fn root_entry_left_out() {
    let r = chain();
    assert!(r.contains("test/a"));
    assert!(r.contains("test/c"));
    assert!(!r.contains("__root__/__root__"));
    assert!(r.get("__root__/__root__").is_none());
    assert!(!r.contains("php"));
}

#[test]
fn resolved_package_fields() {
    let r = chain();
    let c = r.get("test/c").unwrap();
    assert_eq!(c.version, "1.0.0");
    assert_eq!(c.dependencies, vec!["test/b", "test/a"]);
    assert!(!c.is_dev);
    let b = r.get("test/b").unwrap();
    assert!(b.is_dev);
    assert_eq!(b.dependencies, vec!["test/a"]);
    assert!(b.dist_url.is_none());
    assert!(r.get("test/a").unwrap().dependencies.is_empty());
}

#[test]
fn dependents_and_dependencies() {
    let r = chain();
    let on_a: Vec<&str> = r.dependents("test/a").iter().map(|p| p.name.as_str()).collect();
    assert_eq!(on_a, vec!["test/b", "test/c"]);
    let of_c: Vec<&str> = r.dependencies_of("test/c").iter().map(|p| p.name.as_str()).collect();
    assert_eq!(of_c, vec!["test/b", "test/a"]);
    assert!(r.dependents("test/c").is_empty());
    assert!(r.dependents("missing/pkg").is_empty());
    assert!(r.dependencies_of("missing/pkg").is_empty());
}

#[test]
fn cycle_is_broken() {
    let selected = vec![(s("x/one"), s("1.0.0")), (s("x/two"), s("2.0.0")), (s("x/three"), s("3.0.0"))];
    let deps = vec![names(&["x/two"]), names(&["x/one"]), names(&["x/one"])];
    let mut info = DistInfo::default();
    info.dist_url = Some(s("https://example.org/three.zip"));
    let dist = vec![DistInfo::default(), DistInfo::default(), info];
    let r = build_resolution(&selected, &deps, &[], &dist, vec![], Duration::ZERO);
    assert_eq!(r.len(), 3);
    let one = position(&r, "x/one");
    let three = position(&r, "x/three");
    assert!(one < three);
    assert_eq!(r.get("x/three").unwrap().dist_url.as_deref(), Some("https://example.org/three.zip"));
}

#[test]
fn sort_of_resolution_graph() {
    let r = chain();
    let versions = names(&["1.0.0", "1.1.0", "1.0.0"]);
    let dist = vec![DistInfo::default(), DistInfo::default(), DistInfo::default()];
    let sorted = topological_sort(&r.graph, &versions, &[], &dist);
    let order: Vec<&str> = sorted.iter().map(|p| p.name.as_str()).collect();
    assert_eq!(order, vec!["test/a", "test/b", "test/c"]);
}

#[test]
fn dependents_mirror_dependencies() {
    let r = chain();
    for x in ["test/a", "test/b", "test/c"] {
        for y in ["test/a", "test/b", "test/c"] {
            let down = r.dependents(x).iter().any(|p| p.name == y);
            let up = r.dependencies_of(y).iter().any(|p| p.name == x);
            assert_eq!(down, up);
        }
    }
}

#[test]
fn fetch_state_seeds_without_platform_or_repeats() {
    let state = FetchState::new(&names(&["a/x", "php", "ext-json", "a/y", "a/x"]), &names(&["d/z", "a/y"]), true);
    assert_eq!(state.seen, vec!["a/x", "a/y", "d/z"]);
    assert_eq!(state.pending, vec!["a/x", "a/y", "d/z"]);
    assert_eq!(state.in_flight, 0);
    let no_dev = FetchState::new(&names(&["a/x"]), &names(&["d/z"]), false);
    assert_eq!(no_dev.seen, vec!["a/x"]);
}

#[test]
fn fetch_steps_respect_the_concurrency_limit() {
    let mut state = FetchState::new(&names(&["a/1", "a/2", "a/3"]), &[], false);
    let first = fetch_step(&mut state, FetchEvent::Started, 2);
    assert_eq!(first, vec!["a/3", "a/2"]);
    assert_eq!(state.in_flight, 2);
    assert_eq!(state.pending, vec!["a/1"]);
    let second = fetch_step(&mut state, FetchEvent::Completed(Some(names(&["a/2", "b/1", "lib-curl", "b/1"]))), 2);
    assert_eq!(second, vec!["b/1"]);
    assert_eq!(state.seen, vec!["a/1", "a/2", "a/3", "b/1"]);
    assert_eq!(state.pending, vec!["a/1"]);
    assert_eq!(state.in_flight, 2);
    let third = fetch_step(&mut state, FetchEvent::Completed(None), 2);
    assert_eq!(third, vec!["a/1"]);
    assert!(!state.is_done());
    fetch_step(&mut state, FetchEvent::Completed(None), 2);
    fetch_step(&mut state, FetchEvent::Completed(None), 2);
    assert!(state.is_done());
    assert!(state.pending.is_empty());
}

fn reqs(v: &[(&str, &str)]) -> Vec<(String, String)> {
    v.iter().map(|(n, c)| (n.to_string(), c.to_string())).collect()
}

fn pending_names(q: &[PendingPackage]) -> Vec<String> {
    q.iter().map(|p| p.name.clone()).collect()
}

#[test]
fn transitive_discovery_walks_breadth_first() {
    let mut state = TransitiveState::new(
        &reqs(&[("a/x", "^1"), ("php", ">=8"), ("a/y", "*")]),
        &reqs(&[("d/z", "1")]),
        true,
    );
    assert_eq!(pending_names(&state.queue), vec!["a/x", "a/y", "d/z"]);
    assert!(state.queue[2].is_dev && !state.queue[0].is_dev);
    assert_eq!(state.platform_requirements, reqs(&[("php", ">=8")]));

    let first = state.next_batch(2, 0);
    assert_eq!(pending_names(&first), vec!["a/x", "a/y"]);
    assert_eq!(state.seen, vec!["a/x", "a/y"]);
    assert_eq!(pending_names(&state.queue), vec!["d/z"]);

    let mut results = Vec::new();
    let mut it = first.into_iter();
    let x = it.next().unwrap();
    let y = it.next().unwrap();
    results.push((x, FetchOutcome::Found(Some((
        reqs(&[("a/y", "^2"), ("b/1", "~1"), ("ext-json", "*")]),
        reqs(&[("t/1", "^9")]),
    )))));
    results.push((y, FetchOutcome::NotFound));
    let second = transitive_step(&mut state, &results, 0, false, 10, 0);
    assert_eq!(pending_names(&second), vec!["d/z", "b/1", "t/1"]);
    assert_eq!(second[1].parent, Some(s("a/x")));
    assert_eq!(second[1].depth, 1);
    assert!(second[2].is_dev);
    assert_eq!(state.packages, vec!["a/x"]);
    assert_eq!(state.missing, vec![(s("a/y"), None)]);
    assert_eq!(state.platform_requirements, reqs(&[("php", ">=8"), ("ext-json", "*")]));
    assert!(state.edges.is_empty());
    assert_eq!(state.seen, vec!["a/x", "a/y", "d/z", "b/1", "t/1"]);

    let mut it = second.into_iter();
    let z = it.next().unwrap();
    let b = it.next().unwrap();
    let t = it.next().unwrap();
    let results = vec![
        (z, FetchOutcome::Found(None)),
        (b, FetchOutcome::Found(Some((reqs(&[("a/x", "^1"), ("c/1", "2")]), reqs(&[("q/1", "1")]))))),
        (t, FetchOutcome::Found(Some((vec![], vec![])))),
    ];
    let third = transitive_step(&mut state, &results, 0, false, 10, 0);
    assert_eq!(pending_names(&third), vec!["c/1"]);
    assert_eq!(third[0].depth, 2);
    assert_eq!(third[0].parent, Some(s("b/1")));
    assert_eq!(state.packages, vec!["a/x", "d/z", "b/1", "t/1"]);
    assert_eq!(state.edges, vec![(s("a/x"), s("b/1"), s("~1")), (s("a/x"), s("t/1"), s("^9"))]);
    assert_eq!(state.max_depth_reached, 1);
}

#[test]
fn transitive_discovery_stops_at_the_limits() {
    let mut state = TransitiveState::new(&reqs(&[("a/x", "*")]), &[], false);
    let deep = PendingPackage { name: s("a/x"), constraint: s("*"), parent: Some(s("r/r")), depth: 3, is_dev: false };
    state.record(&deep, &FetchOutcome::Found(Some((reqs(&[("b/1", "1")]), vec![]))), 3, false);
    assert_eq!(state.packages, vec!["a/x"]);
    assert!(state.edges.is_empty());
    assert_eq!(pending_names(&state.queue), vec!["a/x"]);
    assert_eq!(state.max_depth_reached, 3);
    assert!(state.next_batch(5, 1).is_empty());
    assert_eq!(pending_names(&state.queue), vec!["a/x"]);
    assert_eq!(pending_names(&state.next_batch(5, 2)), vec!["a/x"]);
}

#[test]
fn stability_ignores_the_case_of_version_text() {
    for v in ["1.0.0-RC1", "2.0.0-Beta3", "1.0.0A1", "DEV-main", "3.1.0"] {
        assert_eq!(Stability::from_version(v), Stability::from_version(&v.to_ascii_lowercase()));
        assert_eq!(Stability::from_version(v), Stability::from_version(&v.to_ascii_uppercase()));
    }
}

#[test]
fn root_requirements_combine_and_skip_platform() {
    let (all, dev_names) = root_requirements(
        &reqs(&[("a/x", "^1"), ("php", ">=8.1"), ("ext-json", "*")]),
        &reqs(&[("d/z", "^2"), ("lib-curl", "*")]),
        true,
    );
    assert_eq!(all, reqs(&[("a/x", "^1"), ("d/z", "^2")]));
    assert_eq!(dev_names, vec!["d/z", "lib-curl"]);
    let (no_dev, names) = root_requirements(&reqs(&[("a/x", "^1")]), &reqs(&[("d/z", "^2")]), false);
    assert_eq!(no_dev, reqs(&[("a/x", "^1")]));
    assert_eq!(names, vec!["d/z"]);
}
