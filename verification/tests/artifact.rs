use caller_modpath_aggregator::artifact::{
    dep_glob_pattern, profile_dir_name, select_artifact, shared_lib_extension,
    target_profile_dir, workspace_lib_path, ArtifactCandidate,
};

fn candidate(path: &str, access_time: Option<u64>) -> ArtifactCandidate {
    ArtifactCandidate { path: path.to_string(), access_time }
}

#[test]
fn the_more_recently_accessed_candidate_wins() {
    let c = vec![candidate("older.so", Some(10)), candidate("newer.so", Some(20))];
    assert_eq!(select_artifact(&c).unwrap(), "newer.so");
    let c = vec![candidate("newer.so", Some(20)), candidate("older.so", Some(10))];
    assert_eq!(select_artifact(&c).unwrap(), "newer.so");
}

#[test]
fn on_equal_access_times_the_later_candidate_wins() {
    let c = vec![candidate("first.so", Some(5)), candidate("second.so", Some(5))];
    assert_eq!(select_artifact(&c).unwrap(), "second.so");
}

#[test]
fn unreadable_candidates_are_discarded() {
    let c = vec![candidate("gone.so", None), candidate("there.so", Some(1))];
    assert_eq!(select_artifact(&c).unwrap(), "there.so");
}

#[test]
fn no_readable_candidate_fails_listing_every_attempted_path() {
    let c = vec![candidate("a.so", None), candidate("b.so", None)];
    let e = select_artifact(&c).unwrap_err();
    assert_eq!(e.candidates, vec!["a.so", "b.so"]);
    let m = e.message();
    assert_eq!(
        m,
        "Could not find a readable shared-library artifact; tried candidate paths: a.so b.so"
    );
}

#[test]
fn candidate_paths_follow_the_build_layout() {
    let profile = profile_dir_name(true);
    assert_eq!(profile, "debug");
    assert_eq!(profile_dir_name(false), "release");
    let ext = shared_lib_extension(false);
    assert_eq!(ext, "so");
    assert_eq!(shared_lib_extension(true), "dylib");
    let target = target_profile_dir("/work/proj", &profile);
    assert_eq!(target, "/work/proj/target/debug");
    assert_eq!(dep_glob_pattern(&target, "mylib", &ext), "/work/proj/target/debug/deps/libmylib-*.so");
    assert_eq!(workspace_lib_path(&target, "mylib", &ext), "/work/proj/target/debug/libmylib.so");
}
