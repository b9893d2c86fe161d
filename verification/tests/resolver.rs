use companion_bootstrap::resolver::{Resolution, Resolver};

fn paths(items: &[&str]) -> Vec<String> {
    items.iter().map(|item| String::from(*item)).collect()
}

/// Drives `resolver` against the locations in `present`; returns the probes
/// it made and the path it settled on.
fn resolve(resolver: &mut Resolver, present: &[&str]) -> (Vec<String>, String) {
    let mut probes = Vec::new();
    for _ in 0..64 {
        match resolver.directive() {
            Resolution::Probe(location) => {
                let exists = present.contains(&location.as_str());
                probes.push(location);
                resolver.report(exists);
            }
            Resolution::Settled(path) => return (probes, path),
        }
    }
    panic!("the resolver did not settle");
}

#[test]
fn resolver_starts_by_probing_the_first_candidate() {
    let resolver = Resolver::new(paths(&["/x/one", "/x/two"]), String::from("/w"));
    assert_eq!(resolver.directive(), Resolution::Probe(String::from("/x/one")));
    assert_eq!(resolver.directive(), Resolution::Probe(String::from("/x/one")));
}

#[test]
fn resolver_moves_on_after_a_miss() {
    let mut resolver = Resolver::new(paths(&["/x/one", "/x/two"]), String::from("/w"));
    resolver.report(false);
    assert_eq!(resolver.directive(), Resolution::Probe(String::from("/x/two")));
}

#[test]
fn resolver_settles_on_a_hit() {
    let mut resolver = Resolver::new(paths(&["/x/one", "/x/two"]), String::from("/w"));
    resolver.report(true);
    assert_eq!(resolver.directive(), Resolution::Settled(String::from("/x/one")));
}

#[test]
fn resolver_ignores_answers_once_settled() {
    let mut resolver = Resolver::new(paths(&["/x/one", "/x/two"]), String::from("/w"));
    resolver.report(true);
    resolver.report(false);
    resolver.report(true);
    assert_eq!(resolver.directive(), Resolution::Settled(String::from("/x/one")));

    let mut exhausted = Resolver::new(paths(&["/x/one"]), String::from("/w"));
    exhausted.report(false);
    exhausted.report(true);
    assert_eq!(exhausted.directive(), Resolution::Settled(String::from("server/src/index.js")));
}

#[test]
fn resolver_without_candidates_settles_on_the_fallback_at_once() {
    let mut resolver = Resolver::new(Vec::new(), String::from("/w"));
    assert_eq!(resolver.directive(), Resolution::Settled(String::from("server/src/index.js")));
    let (probes, path) = resolve(&mut resolver, &["/w/server/src/index.js"]);
    assert!(probes.is_empty());
    assert_eq!(path, "server/src/index.js");
}

#[test]
fn installed_candidate_wins_when_both_exist() {
    let mut resolver = Resolver::for_executable("/a/b/c/d/e/app", "/w");
    let present = ["/a/b/c/d/e/server/src/index.js", "/a/server/src/index.js"];
    let (probes, path) = resolve(&mut resolver, &present);
    assert_eq!(path, "/a/b/c/d/e/server/src/index.js");
    assert_eq!(probes, paths(&["/a/b/c/d/e/server/src/index.js"]));
}

#[test]
fn dev_tree_candidate_is_taken_when_the_installed_one_is_absent() {
    let mut resolver = Resolver::for_executable("/a/b/c/d/e/app", "/w");
    let (probes, path) = resolve(&mut resolver, &["/a/server/src/index.js"]);
    assert_eq!(path, "/a/server/src/index.js");
    assert_eq!(
        probes,
        paths(&["/a/b/c/d/e/server/src/index.js", "/a/server/src/index.js"])
    );
}

#[test]
fn fallback_is_the_relative_entry_point_when_nothing_exists() {
    let mut resolver = Resolver::for_executable("/a/b/c/d/e/app", "/home/u/project");
    let (probes, path) = resolve(&mut resolver, &[]);
    assert_eq!(path, "server/src/index.js");
    assert_eq!(
        probes,
        paths(&["/a/b/c/d/e/server/src/index.js", "/a/server/src/index.js"])
    );
    assert_eq!(resolver.locate(&path), "/home/u/project/server/src/index.js");
}

#[test]
fn fallback_is_not_probed_by_the_resolver() {
    let mut resolver = Resolver::for_executable("/opt/App/bin/app", "/home/u/project");
    let (probes, path) = resolve(&mut resolver, &["/home/u/project/server/src/index.js"]);
    assert_eq!(path, "server/src/index.js");
    assert_eq!(probes, paths(&["/opt/App/bin/server/src/index.js"]));
}

#[test]
fn candidates_after_the_first_hit_are_not_probed() {
    let candidates = paths(&["/x/one", "/x/two", "/x/three", "/x/four"]);
    let mut resolver = Resolver::new(candidates, String::from("/w"));
    let (probes, path) = resolve(&mut resolver, &["/x/two", "/x/three", "/x/four"]);
    assert_eq!(path, "/x/two");
    assert_eq!(probes, paths(&["/x/one", "/x/two"]));
}

#[test]
fn relative_candidates_are_probed_under_the_working_directory() {
    let mut resolver = Resolver::for_executable("bin/app", "/home/u/project");
    assert_eq!(
        resolver.directive(),
        Resolution::Probe(String::from("/home/u/project/bin/server/src/index.js"))
    );
    let (_, path) = resolve(&mut resolver, &["/home/u/project/bin/server/src/index.js"]);
    assert_eq!(path, "bin/server/src/index.js");
}

#[test]
fn locate_takes_relative_paths_against_the_working_directory() {
    let resolver = Resolver::new(Vec::new(), String::from("/home/u/project"));
    assert_eq!(resolver.locate("server/src/index.js"), "/home/u/project/server/src/index.js");
    assert_eq!(resolver.locate("/opt/App/bin/server/src/index.js"), "/opt/App/bin/server/src/index.js");
}

#[test]
fn scenario_installed_entry_point_is_resolved() {
    let mut resolver = Resolver::for_executable("/opt/App/bin/app", "/");
    let (probes, path) = resolve(&mut resolver, &["/opt/App/bin/server/src/index.js"]);
    assert_eq!(path, "/opt/App/bin/server/src/index.js");
    assert_eq!(probes, paths(&["/opt/App/bin/server/src/index.js"]));
}

#[test]
fn scenario_nothing_exists_resolves_to_the_relative_fallback() {
    let mut resolver = Resolver::for_executable("/opt/App/bin/app", "/home/u/project");
    let (_, path) = resolve(&mut resolver, &[]);
    assert_eq!(path, "server/src/index.js");
}
