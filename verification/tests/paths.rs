use companion_bootstrap::path::ancestor;
use companion_bootstrap::resolver::{candidate, candidate_paths, DEV_TREE_DEPTH, ENTRY_POINT, INSTALLED_DEPTH};

#[test]
fn ancestor_at_depth_zero_is_the_path_itself() {
    assert_eq!(ancestor("/opt/App/bin/app", 0), Some(String::from("/opt/App/bin/app")));
    assert_eq!(ancestor("", 0), Some(String::new()));
}

#[test]
fn ancestor_climbs_one_level_per_step() {
    assert_eq!(ancestor("/opt/App/bin/app", 1), Some(String::from("/opt/App/bin")));
    assert_eq!(ancestor("/opt/App/bin/app", 2), Some(String::from("/opt/App")));
    assert_eq!(ancestor("/opt/App/bin/app", 3), Some(String::from("/opt")));
    assert_eq!(ancestor("/opt/App/bin/app", 4), Some(String::from("/")));
}

#[test]
fn ancestor_stops_at_the_root() {
    assert_eq!(ancestor("/opt/App/bin/app", 5), None);
    assert_eq!(ancestor("/", 1), None);
    assert_eq!(ancestor("/", usize::MAX), None);
}

#[test]
fn ancestor_of_a_bare_name_is_the_empty_path() {
    assert_eq!(ancestor("app", 1), Some(String::new()));
    assert_eq!(ancestor("app", 2), None);
    assert_eq!(ancestor("", 1), None);
}

#[test]
fn layout_constants_have_their_values() {
    assert_eq!(ENTRY_POINT, "server/src/index.js");
    assert_eq!(INSTALLED_DEPTH, 0);
    assert_eq!(DEV_TREE_DEPTH, 4);
}

#[test]
fn installed_candidate_sits_beside_the_binary() {
    assert_eq!(
        candidate("/opt/App/bin/app", INSTALLED_DEPTH),
        Some(String::from("/opt/App/bin/server/src/index.js"))
    );
    assert_eq!(
        candidate("/usr/lib/Ideas/ideas", INSTALLED_DEPTH),
        Some(String::from("/usr/lib/Ideas/server/src/index.js"))
    );
}

#[test]
fn dev_tree_candidate_sits_four_levels_above_the_binary_directory() {
    assert_eq!(
        candidate("/a/b/c/d/e/app", DEV_TREE_DEPTH),
        Some(String::from("/a/server/src/index.js"))
    );
    assert_eq!(
        candidate("/b/c/d/e/app", DEV_TREE_DEPTH),
        Some(String::from("/server/src/index.js"))
    );
}

#[test]
fn candidate_needs_enough_ancestors() {
    assert_eq!(candidate("/c/d/e/app", DEV_TREE_DEPTH), None);
    assert_eq!(candidate("/opt/App/bin/app", DEV_TREE_DEPTH), None);
    assert_eq!(candidate("/", INSTALLED_DEPTH), None);
    assert_eq!(candidate("", INSTALLED_DEPTH), None);
}

#[test]
fn candidate_of_a_relative_executable_is_relative() {
    assert_eq!(candidate("app", INSTALLED_DEPTH), Some(String::from("server/src/index.js")));
    assert_eq!(candidate("bin/app", INSTALLED_DEPTH), Some(String::from("bin/server/src/index.js")));
    assert_eq!(candidate("app", 1), None);
}

#[test]
fn candidate_paths_lists_installed_before_dev_tree() {
    assert_eq!(
        candidate_paths("/a/b/c/d/e/app"),
        vec![String::from("/a/b/c/d/e/server/src/index.js"), String::from("/a/server/src/index.js")]
    );
}

#[test]
fn candidate_paths_leaves_out_what_cannot_be_formed() {
    assert_eq!(
        candidate_paths("/opt/App/bin/app"),
        vec![String::from("/opt/App/bin/server/src/index.js")]
    );
    assert_eq!(candidate_paths("/"), Vec::<String>::new());
    assert_eq!(candidate_paths(""), Vec::<String>::new());
}

#[test]
fn candidate_paths_is_the_same_on_every_call() {
    let first = candidate_paths("/a/b/c/d/e/app");
    let second = candidate_paths("/a/b/c/d/e/app");
    let third = candidate_paths("/a/b/c/d/e/app");
    assert_eq!(first, second);
    assert_eq!(second, third);
    assert_eq!(candidate_paths("/opt/App/bin/app"), candidate_paths("/opt/App/bin/app"));
}
