use bootc_base_imagectl::treefile::{load, LoadErrorKind, LoadFailure, LoadStep, Treefile};

fn strings(v: &[&str]) -> Vec<String> {
    v.iter().map(|s| s.to_string()).collect()
}

fn tree(packages: &[&str], includes: &[&str]) -> Treefile {
    Treefile {
        packages: strings(packages),
        includes: strings(includes),
        ..Default::default()
    }
}

fn expect_read(step: &LoadStep) -> String {
    match step {
        LoadStep::Read(p) => p.clone(),
        LoadStep::Done(_) => panic!("expected a read, got the result"),
        LoadStep::Failed(e) => panic!("expected a read, got failure on {}", e.path),
    }
}

fn expect_done(step: LoadStep) -> Treefile {
    match step {
        LoadStep::Done(t) => t,
        LoadStep::Read(p) => panic!("expected the result, got a read of {p}"),
        LoadStep::Failed(e) => panic!("expected the result, got failure on {}", e.path),
    }
}

#[test]
fn merge_deduplicates() {
    let mut base = Treefile {
        packages: vec!["vim".into(), "git".into()],
        releasever: Some("42".into()),
        ..Default::default()
    };
    let child = Treefile {
        packages: vec!["git".into(), "curl".into()],
        releasever: Some("41".into()),
        recommends: Some(false),
        ..Default::default()
    };
    base.merge(&child);
    assert_eq!(base.packages, vec!["vim", "git", "curl"]);
    // Parent releasever wins
    assert_eq!(base.releasever.as_deref(), Some("42"));
    // Child recommends fills in the blank
    assert_eq!(base.recommends, Some(false));
}

#[test]
fn merge_lists_repos_and_units() {
    let mut base = Treefile {
        repos: strings(&["fedora"]),
        units: strings(&["sshd.service"]),
        documentation: Some(true),
        ..Default::default()
    };
    let child = Treefile {
        repos: strings(&["updates", "fedora"]),
        units: strings(&["chronyd.service", "sshd.service"]),
        documentation: Some(false),
        includes: strings(&["other.yaml"]),
        ..Default::default()
    };
    base.merge(&child);
    assert_eq!(base.repos, vec!["fedora", "updates"]);
    assert_eq!(base.units, vec!["sshd.service", "chronyd.service"]);
    assert_eq!(base.documentation, Some(true));
    assert!(base.includes.is_empty());
}

#[test]
fn merge_skips_duplicates_within_the_child() {
    // An item is appended once, even when the child lists it twice.
    let mut base = tree(&["vim"], &[]);
    let child = tree(&["curl", "curl", "vim", "git", "curl"], &[]);
    base.merge(&child);
    assert_eq!(base.packages, vec!["vim", "curl", "git"]);
    let mut empty = tree(&[], &[]);
    empty.merge(&tree(&["a", "a"], &[]));
    assert_eq!(empty.packages, vec!["a"]);
}

#[test]
fn merge_twice_changes_nothing() {
    let mut base = Treefile {
        packages: strings(&["a", "b"]),
        ..Default::default()
    };
    let child = Treefile {
        packages: strings(&["b", "c"]),
        releasever: Some("40".into()),
        recommends: Some(true),
        ..Default::default()
    };
    base.merge(&child);
    let once = (base.packages.clone(), base.releasever.clone(), base.recommends);
    base.merge(&child);
    assert_eq!((base.packages.clone(), base.releasever.clone(), base.recommends), once);
    assert_eq!(base.packages, vec!["a", "b", "c"]);
    assert_eq!(base.releasever.as_deref(), Some("40"));
}

#[test]
fn merge_with_itself_changes_nothing() {
    let mut base = Treefile {
        packages: strings(&["a", "b"]),
        units: strings(&["x"]),
        releasever: Some("42".into()),
        ..Default::default()
    };
    let copy = base.clone();
    base.merge(&copy);
    assert_eq!(base.packages, copy.packages);
    assert_eq!(base.units, copy.units);
    assert_eq!(base.releasever, copy.releasever);
}

#[test]
fn load_asks_for_the_root_first() {
    let (_loader, step) = load("/srv/tree/fedora.yaml");
    assert_eq!(expect_read(&step), "/srv/tree/fedora.yaml");
}

#[test]
fn load_without_includes_returns_the_file() {
    let (mut loader, _) = load("/srv/tree/fedora.yaml");
    let step = loader.resume(Ok(tree(&["vim"], &[])));
    let t = expect_done(step);
    assert_eq!(t.packages, vec!["vim"]);
}

#[test]
fn load_resolves_includes_relative_to_the_parent_directory() {
    let (mut loader, _) = load("/srv/tree/fedora.yaml");
    let step = loader.resume(Ok(tree(&["vim"], &["common/base.yaml", "/abs/extra.yaml"])));
    assert_eq!(expect_read(&step), "/srv/tree/common/base.yaml");
    // base.yaml includes a file next to itself.
    let step = loader.resume(Ok(tree(&["git", "vim"], &["sub.yaml"])));
    assert_eq!(expect_read(&step), "/srv/tree/common/sub.yaml");
    let step = loader.resume(Ok(tree(&["curl"], &[])));
    // An absolute include replaces the directory.
    assert_eq!(expect_read(&step), "/abs/extra.yaml");
    let step = loader.resume(Ok(Treefile {
        packages: strings(&["strace"]),
        releasever: Some("41".into()),
        ..Default::default()
    }));
    let t = expect_done(step);
    // Depth first, in the order listed; the root's own includes are kept.
    assert_eq!(t.packages, vec!["vim", "git", "curl", "strace"]);
    assert_eq!(t.releasever.as_deref(), Some("41"));
    assert_eq!(t.includes, vec!["common/base.yaml", "/abs/extra.yaml"]);
}

#[test]
fn load_root_scalars_win_over_included() {
    let (mut loader, _) = load("/t/root.yaml");
    let root = Treefile {
        releasever: Some("42".into()),
        includes: strings(&["child.yaml"]),
        ..Default::default()
    };
    let step = loader.resume(Ok(root));
    assert_eq!(expect_read(&step), "/t/child.yaml");
    let child = Treefile {
        releasever: Some("39".into()),
        recommends: Some(false),
        documentation: Some(true),
        ..Default::default()
    };
    let t = expect_done(loader.resume(Ok(child)));
    assert_eq!(t.releasever.as_deref(), Some("42"));
    assert_eq!(t.recommends, Some(false));
    assert_eq!(t.documentation, Some(true));
}

#[test]
fn load_read_failure_of_the_root() {
    let (mut loader, _) = load("/t/root.yaml");
    match loader.resume(Err(LoadFailure::Read("No such file or directory".into()))) {
        LoadStep::Failed(e) => {
            assert!(e.kind == LoadErrorKind::Read);
            assert_eq!(e.path, "/t/root.yaml");
            assert_eq!(e.detail, "No such file or directory");
            assert!(e.included.is_empty());
        }
        _ => panic!("expected a failure"),
    }
}

#[test]
fn load_parse_failure_names_the_include_chain() {
    let (mut loader, _) = load("/t/root.yaml");
    let step = loader.resume(Ok(tree(&[], &["a/one.yaml"])));
    assert_eq!(expect_read(&step), "/t/a/one.yaml");
    let step = loader.resume(Ok(tree(&[], &["two.yaml"])));
    assert_eq!(expect_read(&step), "/t/a/two.yaml");
    match loader.resume(Err(LoadFailure::Parse("bad yaml".into()))) {
        LoadStep::Failed(e) => {
            assert!(e.kind == LoadErrorKind::Parse);
            assert_eq!(e.path, "/t/a/two.yaml");
            assert_eq!(e.detail, "bad yaml");
            assert_eq!(e.included, vec!["/t/a/one.yaml", "/t/a/two.yaml"]);
        }
        _ => panic!("expected a failure"),
    }
}

#[test]
fn load_path_without_parent_fails() {
    let (mut loader, _) = load("/");
    match loader.resume(Ok(tree(&["vim"], &[]))) {
        LoadStep::Failed(e) => {
            assert!(e.kind == LoadErrorKind::NoParent);
            assert_eq!(e.path, "/");
        }
        _ => panic!("expected a failure"),
    }
}

#[test]
fn load_top_level_file_includes_from_root_directory() {
    let (mut loader, _) = load("/root.yaml");
    let step = loader.resume(Ok(tree(&[], &["x.yaml"])));
    assert_eq!(expect_read(&step), "/x.yaml");
}

#[test]
fn load_fails_at_a_missing_include_after_resolving_the_earlier_ones() {
    let (mut loader, _) = load("/t/root.yaml");
    let step = loader.resume(Ok(tree(&["base"], &["one.yaml", "two.yaml"])));
    assert_eq!(expect_read(&step), "/t/one.yaml");
    let step = loader.resume(Ok(tree(&["vim"], &[])));
    assert_eq!(expect_read(&step), "/t/two.yaml");
    match loader.resume(Err(LoadFailure::Read("No such file or directory".into()))) {
        LoadStep::Failed(e) => {
            assert!(e.kind == LoadErrorKind::Read);
            assert_eq!(e.path, "/t/two.yaml");
            assert_eq!(e.included, vec!["/t/two.yaml"]);
        }
        _ => panic!("expected a failure"),
    }
}
