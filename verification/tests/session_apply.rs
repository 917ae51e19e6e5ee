use deb_toolkit::session::apply::{check_step, probe_verdict, resolve_local};
use deb_toolkit::session::plan::Step;
use std::path::{Path, PathBuf};

/// Creates an (empty) file named `name` in `dir`, kept until dropped.
fn touch(dir: &Path, name: &str) -> tempfile::NamedTempFile {
    tempfile::Builder::new()
        .prefix(name)
        .rand_bytes(0)
        .tempfile_in(dir)
        .unwrap()
}

/// Existence answers for the files a dry-run step depends on.
fn probe(paths: &[String]) -> Vec<bool> {
    paths.iter().map(|p| Path::new(p).is_file()).collect()
}

#[test]
fn resolve_local_absolute_unchanged() {
    let r = resolve_local("/manifests", "/abs/path");
    assert_eq!(PathBuf::from(r), PathBuf::from("/abs/path"));
}

#[test]
fn resolve_local_relative_joins_manifest_dir() {
    let r = resolve_local("/manifests", "data/foo.tar.gz");
    assert_eq!(PathBuf::from(r), PathBuf::from("/manifests/data/foo.tar.gz"));
}

#[test]
fn check_step_insert_rejects_missing_source() {
    let tmp = tempfile::tempdir().unwrap();
    let dir = tmp.path().to_str().unwrap();
    let step = Step::Insert {
        dest: "/x".into(),
        sources: vec!["./missing.bin".into()],
        directory: false,
    };
    let paths = check_step(&step, dir).unwrap();
    let err = probe_verdict(&step, dir, &probe(&paths)).unwrap_err();
    assert!(err.message().contains("does not exist"), "{}", err.message());
}

#[test]
fn check_step_insert_accepts_existing_source() {
    let tmp = tempfile::tempdir().unwrap();
    let _there = touch(tmp.path(), "there.bin");
    let dir = tmp.path().to_str().unwrap();
    let step = Step::Insert {
        dest: "/x".into(),
        sources: vec!["./there.bin".into()],
        directory: false,
    };
    let paths = check_step(&step, dir).unwrap();
    probe_verdict(&step, dir, &probe(&paths)).unwrap();
}

#[test]
fn check_step_insert_rejects_multi_source_without_directory_flag() {
    let tmp = tempfile::tempdir().unwrap();
    let _a = touch(tmp.path(), "a");
    let _b = touch(tmp.path(), "b");
    let dir = tmp.path().to_str().unwrap();
    let step = Step::Insert {
        dest: "/x".into(),
        sources: vec!["./a".into(), "./b".into()],
        directory: false,
    };
    let err = check_step(&step, dir).unwrap_err();
    assert!(err.message().contains("directory"), "{}", err.message());
}

#[test]
fn check_step_replace_rejects_missing_replacement() {
    let tmp = tempfile::tempdir().unwrap();
    let dir = tmp.path().to_str().unwrap();
    let step = Step::Replace {
        pattern: "/x".into(),
        replacement: "./missing".into(),
    };
    let paths = check_step(&step, dir).unwrap();
    let err = probe_verdict(&step, dir, &probe(&paths)).unwrap_err();
    assert!(err.message().contains("does not exist"), "{}", err.message());
}

#[test]
fn check_step_metadata_ops_have_nothing_to_check() {
    // None of these touch the filesystem at validate-time.
    check_step(
        &Step::RenamePackage {
            new_name: "x".into(),
        },
        "/",
    )
    .unwrap();
    check_step(
        &Step::Reversion {
            new_version: "1.0".into(),
            update_deps: false,
        },
        "/",
    )
    .unwrap();
    check_step(
        &Step::Remove {
            pattern: "/x/*".into(),
        },
        "/",
    )
    .unwrap();
}

#[test]
fn resolve_local_joins_with_exactly_one_separator() {
    assert_eq!(resolve_local("/m/", "x"), "/m/x");
    assert_eq!(resolve_local("", "x"), "x");
    assert_eq!(resolve_local("/m", ""), "/m/");
    assert_eq!(resolve_local("rel", "../x"), "rel/../x");
    for (dir, p) in [("/m/", "x"), ("", "x"), ("/m", ""), ("rel", "../x"), ("/m", "/abs")] {
        assert_eq!(
            PathBuf::from(resolve_local(dir, p)),
            Path::new(dir).join(p),
            "{} + {}",
            dir,
            p
        );
    }
}

#[test]
fn check_step_insert_without_sources_is_rejected() {
    let step = Step::Insert { dest: "/x".into(), sources: vec![], directory: true };
    let err = check_step(&step, "/m").unwrap_err();
    assert_eq!(err.message(), "insert: `sources` is empty");
}

#[test]
fn check_step_replace_rejects_a_directory() {
    let tmp = tempfile::tempdir().unwrap();
    let _cfg = tempfile::Builder::new()
        .prefix("cfg")
        .rand_bytes(0)
        .tempdir_in(tmp.path())
        .unwrap();
    let dir = tmp.path().to_str().unwrap();
    let step = Step::Replace {
        pattern: "/x".into(),
        replacement: "./cfg".into(),
    };
    let paths = check_step(&step, dir).unwrap();
    assert!(Path::new(&paths[0]).exists());
    let err = probe_verdict(&step, dir, &probe(&paths)).unwrap_err();
    assert!(err.message().contains("does not exist"), "{}", err.message());
}
