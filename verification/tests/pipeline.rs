use std::collections::BTreeMap;

use bootc_base_imagectl::manifest::ImageManifest;
use bootc_base_imagectl::rootfs::{DirItem, FsOp, Listing, NodeKind, Probe, RelPath, Snapshot};
use bootc_base_imagectl::transforms::pipeline::{Step, TransformId};
use bootc_base_imagectl::transforms::{self, Context, TransformResult};

/// A node of the in-memory filesystem the tests run the pipeline on.
#[derive(Clone, Debug, PartialEq)]
enum Node {
    Dir,
    File(String),
    Link(String),
}

/// An in-memory rootfs: nodes by their path (components, the root being
/// the empty path, always a directory).
#[derive(Clone, Debug, Default)]
struct MemFs {
    nodes: BTreeMap<Vec<String>, Node>,
}

fn comps(path: &str) -> Vec<String> {
    path.split('/').filter(|c| !c.is_empty()).map(|c| c.to_string()).collect()
}

impl MemFs {
    fn node(&self, p: &[String]) -> Option<Node> {
        if p.is_empty() {
            Some(Node::Dir)
        } else {
            self.nodes.get(p).cloned()
        }
    }

    /// The path `p` stands for once symlinks are followed (the last
    /// component only when `follow_last`); `None` when it cannot be
    /// resolved. The result may name a node that does not exist.
    fn resolve(&self, p: &[String], follow_last: bool) -> Option<Vec<String>> {
        let mut cur: Vec<String> = Vec::new();
        let mut queue: std::collections::VecDeque<String> = p.iter().cloned().collect();
        let mut hops = 0;
        while let Some(c) = queue.pop_front() {
            if c.is_empty() || c == "." {
                continue;
            }
            if c == ".." {
                cur.pop();
                continue;
            }
            let is_last = queue.is_empty();
            let mut next = cur.clone();
            next.push(c);
            match self.node(&next) {
                Some(Node::Link(t)) if !is_last || follow_last => {
                    hops += 1;
                    if hops > 40 {
                        return None;
                    }
                    if t.starts_with('/') {
                        cur.clear();
                    }
                    for x in t.split('/').rev() {
                        queue.push_front(x.to_string());
                    }
                }
                Some(Node::File(_)) if !is_last => return None,
                None if !is_last => return None,
                _ => cur = next,
            }
        }
        Some(cur)
    }

    fn lookup(&self, path: &str, follow: bool) -> Option<Node> {
        self.resolve(&comps(path), follow).and_then(|r| self.node(&r))
    }

    fn present(&self, path: &str) -> bool {
        self.lookup(path, true).is_some()
    }

    fn is_dir(&self, path: &str) -> bool {
        self.lookup(path, true) == Some(Node::Dir)
    }

    fn is_symlink(&self, path: &str) -> bool {
        matches!(self.lookup(path, false), Some(Node::Link(_)))
    }

    fn read_link(&self, path: &str) -> Option<String> {
        match self.lookup(path, false) {
            Some(Node::Link(t)) => Some(t),
            _ => None,
        }
    }

    fn read(&self, path: &str) -> Option<String> {
        match self.lookup(path, true) {
            Some(Node::File(c)) => Some(c),
            _ => None,
        }
    }

    /// The names and nodes directly below a directory, in name order.
    fn children(&self, dir: &[String]) -> Vec<(String, Node)> {
        self.nodes
            .iter()
            .filter(|(k, _)| k.len() == dir.len() + 1 && k.starts_with(dir))
            .map(|(k, n)| (k[dir.len()].clone(), n.clone()))
            .collect()
    }

    fn list(&self, path: &str) -> Vec<String> {
        let dir = self.resolve(&comps(path), true).unwrap();
        self.children(&dir).into_iter().map(|(n, _)| n).collect()
    }

    fn mkdir_p(&mut self, path: &str) -> Result<(), ()> {
        let mut cur: Vec<String> = Vec::new();
        for c in comps(path) {
            let mut next = cur.clone();
            next.push(c);
            match self.node(&next) {
                Some(Node::Dir) => cur = next,
                Some(Node::Link(_)) => {
                    let r = self.resolve(&next, true).ok_or(())?;
                    if self.node(&r) != Some(Node::Dir) {
                        return Err(());
                    }
                    cur = r;
                }
                Some(Node::File(_)) => return Err(()),
                None => {
                    self.nodes.insert(next.clone(), Node::Dir);
                    cur = next;
                }
            }
        }
        Ok(())
    }

    /// Where a new entry named by the last component of `path` goes: its
    /// parent must be an existing directory.
    fn slot(&self, path: &str) -> Result<Vec<String>, ()> {
        let mut p = comps(path);
        let name = p.pop().ok_or(())?;
        let mut parent = self.resolve(&p, true).ok_or(())?;
        if self.node(&parent) != Some(Node::Dir) {
            return Err(());
        }
        parent.push(name);
        Ok(parent)
    }

    fn write(&mut self, path: &str, contents: &str) -> Result<(), ()> {
        let mut at = self.slot(path)?;
        if let Some(Node::Link(_)) = self.node(&at) {
            at = self.resolve(&at, true).ok_or(())?;
        }
        match self.node(&at) {
            Some(Node::Dir) => Err(()),
            _ => {
                self.nodes.insert(at, Node::File(contents.to_string()));
                Ok(())
            }
        }
    }

    fn remove_file(&mut self, path: &str) -> Result<(), ()> {
        let at = self.slot(path)?;
        match self.node(&at) {
            Some(Node::File(_)) | Some(Node::Link(_)) => {
                self.nodes.remove(&at);
                Ok(())
            }
            _ => Err(()),
        }
    }

    fn remove_tree(&mut self, at: &[String]) {
        let keys: Vec<Vec<String>> =
            self.nodes.keys().filter(|k| k.starts_with(at)).cloned().collect();
        for k in keys {
            self.nodes.remove(&k);
        }
    }

    fn remove_dir_all(&mut self, path: &str) -> Result<(), ()> {
        let at = self.slot(path)?;
        match self.node(&at) {
            Some(Node::Dir) => {
                self.remove_tree(&at);
                Ok(())
            }
            _ => Err(()),
        }
    }

    fn symlink(&mut self, target: &str, path: &str) -> Result<(), ()> {
        let at = self.slot(path)?;
        if self.node(&at).is_some() {
            return Err(());
        }
        self.nodes.insert(at, Node::Link(target.to_string()));
        Ok(())
    }

    /// Copies the subtree at `from` to `to` (the destination replaced).
    fn copy_tree(&mut self, from: &[String], to: &[String]) {
        let moved: Vec<(Vec<String>, Node)> = self
            .nodes
            .iter()
            .filter(|(k, _)| k.starts_with(from))
            .map(|(k, n)| {
                let mut nk = to.to_vec();
                nk.extend_from_slice(&k[from.len()..]);
                (nk, n.clone())
            })
            .collect();
        self.remove_tree(to);
        for (k, n) in moved {
            self.nodes.insert(k, n);
        }
    }

    fn rename(&mut self, from: &str, to: &str) -> Result<(), ()> {
        let a = self.slot(from)?;
        let b = self.slot(to)?;
        if self.node(&a).is_none() {
            return Err(());
        }
        self.copy_tree(&a, &b);
        self.remove_tree(&a);
        Ok(())
    }

    /// `cp -a`: symlinks are copied as they are; into an existing
    /// directory, the copy goes below it.
    fn copy_preserving(&mut self, from: &str, to: &str) -> Result<(), ()> {
        let a = self.slot(from)?;
        if self.node(&a).is_none() {
            return Err(());
        }
        let mut b = self.slot(to)?;
        if self.node(&b) == Some(Node::Dir) {
            b.push(a.last().unwrap().clone());
        }
        self.copy_tree(&a, &b);
        Ok(())
    }
}

fn text(p: &RelPath) -> String {
    p.join("/")
}

fn kind_of(n: &Node) -> NodeKind {
    match n {
        Node::Dir => NodeKind::Dir,
        Node::File(_) => NodeKind::File,
        Node::Link(_) => NodeKind::Symlink,
    }
}

/// Create a minimal mock rootfs that simulates a `dnf --installroot` output.
/// This is enough structure for all PreChroot and PostChroot transforms to
/// run without error (Chroot transforms are skipped since there's no kernel).
fn create_mock_rootfs(dir: &mut MemFs) {
    // Real directories that will be converted to symlinks
    for d in ["home", "root", "opt", "srv", "mnt", "media", "usr/local"] {
        dir.mkdir_p(d).unwrap();
    }

    // /var structure
    for d in [
        "var/cache/dnf",
        "var/tmp",
        "var/log",
        "var/lib/rpm",
        "var/run",
    ] {
        dir.mkdir_p(d).unwrap();
    }

    // Fake rpmdb
    dir.write("var/lib/rpm/rpmdb.sqlite", "fake-rpmdb").unwrap();

    // /etc
    dir.mkdir_p("etc/dnf").unwrap();
    dir.write("etc/passwd", "root:x:0:0:root:/root:/bin/bash\n").unwrap();
    dir.write("etc/group", "root:x:0:\n").unwrap();
    dir.write("etc/machine-id", "abcdef1234567890abcdef1234567890\n").unwrap();
    dir.write("etc/dnf/dnf.conf", "[main]\n").unwrap();

    // /usr structure
    for d in [
        "usr/lib/tmpfiles.d",
        "usr/lib/systemd/system/local-fs.target.wants",
        "usr/lib/systemd/system",
        "usr/lib/dracut/dracut.conf.d",
        "usr/lib/ostree",
        "usr/lib/kernel/install.conf.d",
        "usr/lib/rpm/macros.d",
        "usr/share",
    ] {
        dir.mkdir_p(d).unwrap();
    }

    // tmp.mount unit file (for the symlink target)
    dir.write(
        "usr/lib/systemd/system/tmp.mount",
        "[Mount]\nWhat=tmpfs\nWhere=/tmp\nType=tmpfs\n",
    )
    .unwrap();

    // A provision.conf with /root references
    dir.write(
        "usr/lib/tmpfiles.d/provision.conf",
        "d /root 0700 root root -\nd- /root 0700 root root -\n",
    )
    .unwrap();

    // home.conf (should be removed by var_tmpfiles)
    dir.write("usr/lib/tmpfiles.d/home.conf", "d /home 0755 root root -\n").unwrap();

    // /boot with fake initramfs
    dir.mkdir_p("boot").unwrap();
    dir.write("boot/vmlinuz-test", "fake-kernel").unwrap();
    dir.write("boot/initramfs-test.img", "fake-initramfs").unwrap();

    // /run and /tmp
    dir.mkdir_p("run").unwrap();
    dir.mkdir_p("tmp").unwrap();
}

/// Observes one path of the rootfs.
fn probe(fs: &MemFs, p: &RelPath) -> Probe {
    let t = text(p);
    let lstat = fs.lookup(&t, false).map(|n| kind_of(&n));
    let is_dir = fs.is_dir(&t);
    let listing = if is_dir {
        let dir = fs.resolve(&comps(&t), true).unwrap();
        Listing::Read(
            fs.children(&dir)
                .into_iter()
                .map(|(name, n)| DirItem::Entry(name, Some(kind_of(&n))))
                .collect(),
        )
    } else {
        Listing::NotRead
    };
    Probe {
        path: p.clone(),
        lstat,
        exists: fs.present(&t),
        is_dir,
        link_target: fs.read_link(&t),
        listing,
        text: fs.read(&t),
    }
}

/// Observes every path the transform asks for, until it asks for no new one.
fn observe(fs: &MemFs, t: &TransformId) -> Snapshot {
    let mut snap = Snapshot { probes: Vec::new() };
    loop {
        let missing = snap.unobserved(&t.probes(&snap));
        if missing.is_empty() {
            return snap;
        }
        for p in missing {
            let pr = probe(fs, &p);
            snap.probes.push(pr);
        }
    }
}

/// Performs the operations in order, stopping at the first failure.
fn execute(fs: &mut MemFs, ops: Vec<FsOp>) -> Result<(), String> {
    for op in ops {
        match op {
            FsOp::CreateDirAll(p, m) => fs.mkdir_p(&text(&p)).map_err(|_| m)?,
            FsOp::WriteFile(p, c, m) => fs.write(&text(&p), &c).map_err(|_| m)?,
            FsOp::CopyFile(a, b, mr, mw) => {
                let contents = fs.read(&text(&a)).ok_or(mr)?;
                fs.write(&text(&b), &contents).map_err(|_| mw)?
            }
            FsOp::RemoveFile(p, m) => fs.remove_file(&text(&p)).map_err(|_| m)?,
            FsOp::RemoveFileIfExists(p, m) => {
                if fs.present(&text(&p)) {
                    fs.remove_file(&text(&p)).map_err(|_| m)?
                }
            }
            FsOp::RemoveDirAll(p, m) => fs.remove_dir_all(&text(&p)).map_err(|_| m)?,
            FsOp::RemovePath(p, m) => {
                if fs.is_dir(&text(&p)) && !fs.is_symlink(&text(&p)) {
                    fs.remove_dir_all(&text(&p)).map_err(|_| m)?
                } else {
                    fs.remove_file(&text(&p)).map_err(|_| m)?
                }
            }
            FsOp::Symlink(t, p, m) => fs.symlink(&t, &text(&p)).map_err(|_| m)?,
            FsOp::Rename(a, b, m) => fs.rename(&text(&a), &text(&b)).map_err(|_| m)?,
            FsOp::CopyPreserving(a, b, _, mf) => {
                fs.copy_preserving(&text(&a), &text(&b)).map_err(|_| mf)?
            }
            FsOp::RunChrootOperations => return Err("no chroot here".to_string()),
            FsOp::Fail(m) => return Err(m),
        }
    }
    Ok(())
}

/// Runs every transform in phase order against the rootfs.
fn run_all(ctx: &mut Context, fs: &mut MemFs) -> Result<(), String> {
    let (mut runner, mut step) = transforms::run_all(ctx);
    loop {
        step = match step {
            Step::Check(t) => {
                let snap = observe(fs, &t);
                let outcome = t.check(&snap);
                runner.checked(ctx, outcome)
            }
            Step::Apply(t) => {
                let snap = observe(fs, &t);
                let ops = t.apply(&ctx.rootfs_path, &snap, &ctx.manifest);
                let outcome = execute(fs, ops);
                runner.applied(ctx, outcome)
            }
            Step::Finished => return Ok(()),
            Step::Failed(m) => return Err(m),
        };
    }
}

fn new_context(manifest: ImageManifest, check_only: bool) -> Context {
    Context::new("/rootfs".to_string(), manifest, check_only)
}

fn mock() -> MemFs {
    let mut dir = MemFs::default();
    create_mock_rootfs(&mut dir);
    dir
}

#[test]
fn test_finalize_creates_symlinks() {
    let mut dir = mock();

    let manifest = ImageManifest::default();
    let mut ctx = new_context(manifest, false);
    run_all(&mut ctx, &mut dir).unwrap();

    // Check symlinks
    assert!(dir.is_symlink("home"));
    assert_eq!(dir.read_link("home").unwrap(), "var/home");
    assert!(dir.is_symlink("root"));
    assert_eq!(dir.read_link("root").unwrap(), "var/roothome");
    assert!(dir.is_symlink("ostree"));
    assert!(dir.is_dir("sysroot"));
}

#[test]
fn test_finalize_relocates_rpmdb() {
    let mut dir = mock();

    let manifest = ImageManifest::default();
    let mut ctx = new_context(manifest, false);
    run_all(&mut ctx, &mut dir).unwrap();

    assert!(dir.present("usr/share/rpm/rpmdb.sqlite"));
    assert!(dir.is_symlink("var/lib/rpm"));
    assert!(dir.present("usr/lib/rpm/macros.d/macros.rpm-ostree"));
}

#[test]
fn test_finalize_ostree_config() {
    let mut dir = mock();

    let manifest = ImageManifest::default();
    let mut ctx = new_context(manifest, false);
    run_all(&mut ctx, &mut dir).unwrap();

    let content = dir.read("usr/lib/ostree/prepare-root.conf").unwrap();
    assert!(content.contains("[composefs]"));
    assert!(content.contains("enabled = true"));
    assert!(content.contains("[sysroot]"));
    assert!(content.contains("readonly = true"));
}

#[test]
fn test_finalize_creates_tmpfiles() {
    let mut dir = mock();
    let mut ctx = new_context(ImageManifest::default(), false);
    run_all(&mut ctx, &mut dir).unwrap();

    let content = dir.read("usr/lib/tmpfiles.d/bootc-base-var.conf").unwrap();
    assert!(content.contains("d /var/home 0755"));
    assert!(content.contains("d /var/roothome 0700"));
    assert!(content.contains("d /var/lib/rpm-state 0755"));

    // home.conf should be removed
    assert!(!dir.present("usr/lib/tmpfiles.d/home.conf"));
}

#[test]
fn test_finalize_empties_machine_id() {
    let mut dir = mock();
    let mut ctx = new_context(ImageManifest::default(), false);
    run_all(&mut ctx, &mut dir).unwrap();

    let machine_id = dir.read("etc/machine-id").unwrap();
    assert!(machine_id.is_empty(), "machine-id should be empty, got: {machine_id:?}");
}

#[test]
fn test_finalize_fixes_provision_conf() {
    let mut dir = mock();
    let mut ctx = new_context(ImageManifest::default(), false);
    run_all(&mut ctx, &mut dir).unwrap();

    let content = dir.read("usr/lib/tmpfiles.d/provision.conf").unwrap();
    assert!(!content.contains(" /root "), "provision.conf should not contain /root");
    assert!(content.contains("/var/roothome"));
}

#[test]
fn test_finalize_relocates_boot() {
    let mut dir = mock();

    let manifest = ImageManifest::default();
    let mut ctx = new_context(manifest, false);
    run_all(&mut ctx, &mut dir).unwrap();

    assert!(dir.present("usr/lib/ostree-boot/vmlinuz-test"));
    assert!(dir.present("usr/lib/ostree-boot/initramfs-test.img"));
    // boot should be empty
    let boot_entries = dir.list("boot");
    assert!(boot_entries.is_empty(), "boot/ should be empty after relocate");
}

#[test]
fn test_finalize_idempotent() {
    let mut dir = mock();

    let manifest = ImageManifest::default();

    // First run
    let mut ctx = new_context(manifest.clone(), false);
    run_all(&mut ctx, &mut dir).unwrap();

    // Second run should succeed without errors
    let mut ctx2 = new_context(manifest, false);
    run_all(&mut ctx2, &mut dir).unwrap();
}

#[test]
fn test_lint_check_mode() {
    let mut dir = mock();

    let manifest = ImageManifest::default();

    // Check mode should not modify anything
    let mut ctx = new_context(manifest, true);
    run_all(&mut ctx, &mut dir).unwrap();

    // home should still be a real directory (not converted to symlink)
    assert!(dir.is_dir("home"));
    assert!(!dir.is_symlink("home"));
}

#[test]
fn test_manifest_skip() {
    let mut dir = mock();

    let mut manifest = ImageManifest::default();
    manifest.transforms.skip = vec!["toplevel_symlinks".to_string()];

    let mut ctx = new_context(manifest, false);
    run_all(&mut ctx, &mut dir).unwrap();

    // Symlinks should NOT have been created (transform was skipped)
    assert!(dir.is_dir("home"));
    assert!(!dir.is_symlink("home"));

    // But other transforms should have run
    assert!(dir.present("usr/lib/ostree/prepare-root.conf"));
}

fn result_names(ctx: &Context) -> Vec<(String, String)> {
    ctx.results
        .iter()
        .map(|(n, r)| (n.clone(), r.to_display_string()))
        .collect()
}

#[test]
fn second_run_finds_the_layout_already_correct() {
    let mut dir = mock();
    let mut ctx = new_context(ImageManifest::default(), false);
    run_all(&mut ctx, &mut dir).unwrap();
    let mut ctx2 = new_context(ImageManifest::default(), false);
    run_all(&mut ctx2, &mut dir).unwrap();
    let names = result_names(&ctx2);
    let expect = |name: &str, what: &str| {
        assert!(
            names.iter().any(|(n, r)| n == name && r == what),
            "{name}: {names:?}"
        );
    };
    expect("toplevel_symlinks", "already correct");
    expect("var_tmpfiles", "already correct");
    expect("rpmdb_relocate", "already correct");
    expect("dracut_config", "already correct");
    expect("dnf_config", "already correct");
    expect("systemd_config", "already correct");
    expect("passwd_generate", "already correct");
    expect("ostree_config", "already correct");
    expect("chroot_ops", "already correct");
    expect("boot_relocate", "already correct");
    // Cleanup always runs.
    expect("post_cleanup", "applied");
}

#[test]
fn lint_reports_needed_transforms_as_failures() {
    let mut dir = mock();
    let before = dir.nodes.clone();
    let mut ctx = new_context(ImageManifest::default(), true);
    run_all(&mut ctx, &mut dir).unwrap();
    assert_eq!(dir.nodes, before);
    let (pass, fail) = ctx.results();
    assert_eq!(pass + fail, ctx.results.len());
    // Only chroot_ops (no kernel) passes; everything else needs applying.
    assert_eq!(pass, 1);
    assert_eq!(fail, 10);
    assert!(ctx
        .results
        .iter()
        .all(|(_, r)| !matches!(r, TransformResult::Applied)));
    assert_eq!(ctx.results[0].1.to_display_string(), "check failed: needs apply");
}

#[test]
fn phases_run_in_order() {
    let mut dir = mock();
    let mut ctx = new_context(ImageManifest::default(), false);
    run_all(&mut ctx, &mut dir).unwrap();
    let order: Vec<String> = ctx.results.iter().map(|(n, _)| n.clone()).collect();
    assert_eq!(
        order,
        vec![
            "toplevel_symlinks",
            "var_tmpfiles",
            "rpmdb_relocate",
            "passwd_generate",
            "ostree_config",
            "dracut_config",
            "dnf_config",
            "systemd_config",
            "chroot_ops",
            "boot_relocate",
            "post_cleanup",
        ]
    );
}

#[test]
fn skipped_transforms_are_recorded() {
    let mut dir = mock();
    let mut manifest = ImageManifest::default();
    manifest.transforms.skip = vec!["post_cleanup".to_string(), "passwd_generate".to_string()];
    let mut ctx = new_context(manifest, false);
    run_all(&mut ctx, &mut dir).unwrap();
    let names = result_names(&ctx);
    assert!(names.contains(&(
        "passwd_generate".to_string(),
        "skipped: skipped by manifest".to_string()
    )));
    assert!(names.contains(&(
        "post_cleanup".to_string(),
        "skipped: skipped by manifest".to_string()
    )));
    assert!(!dir.present("usr/lib/passwd"));
}

#[test]
fn passwd_is_copied_and_cleanup_empties_caches() {
    let mut dir = mock();
    dir.mkdir_p("usr/share/rpm").unwrap();
    dir.write("usr/share/rpm/rpmdb.sqlite-wal", "wal").unwrap();
    let mut ctx = new_context(ImageManifest::default(), false);
    run_all(&mut ctx, &mut dir).unwrap();
    assert_eq!(dir.read("usr/lib/passwd").unwrap(), "root:x:0:0:root:/root:/bin/bash\n");
    assert_eq!(dir.read("usr/lib/group").unwrap(), "root:x:0:\n");
    assert!(dir.list("var/cache").is_empty());
    assert!(dir.list("tmp").is_empty());
    assert!(!dir.present("usr/share/rpm/rpmdb.sqlite-wal"));
    assert_eq!(dir.read("usr/lib/kernel/install.conf").unwrap(), "layout=ostree\n");
    assert_eq!(
        dir.read("usr/lib/kernel/install.conf.d/00-bootc-kernel-layout.conf").unwrap(),
        "layout=ostree\n"
    );
    assert_eq!(
        dir.read("usr/lib/rpm/macros.d/macros.rpm-ostree").unwrap(),
        "%_dbpath /usr/share/rpm\n"
    );
    assert_eq!(dir.read_link("var/lib/rpm").unwrap(), "../../usr/share/rpm");
    assert_eq!(dir.read_link("usr/local").unwrap(), "../var/usrlocal");
    assert_eq!(dir.read_link("ostree").unwrap(), "sysroot/ostree");
}

#[test]
fn failed_apply_stops_the_pipeline_with_its_message() {
    let mut dir = mock();
    // etc/passwd missing: passwd_generate cannot read it.
    dir.remove_file("etc/passwd").unwrap();
    let mut ctx = new_context(ImageManifest::default(), false);
    let err = run_all(&mut ctx, &mut dir).unwrap_err();
    assert_eq!(err, "transform passwd_generate failed: reading etc/passwd");
    // The transforms before it were applied; none after it ran.
    assert_eq!(ctx.results.len(), 3);
}

#[test]
fn rpmdb_from_sysimage_is_preferred() {
    let mut dir = mock();
    dir.mkdir_p("usr/lib/sysimage/rpm").unwrap();
    dir.write("usr/lib/sysimage/rpm/rpmdb.sqlite", "dnf5-db").unwrap();
    let mut ctx = new_context(ImageManifest::default(), false);
    run_all(&mut ctx, &mut dir).unwrap();
    assert_eq!(dir.read("usr/share/rpm/rpmdb.sqlite").unwrap(), "dnf5-db");
    assert!(!dir.present("usr/lib/sysimage/rpm"));
    // The old dnf4 directory is replaced by the link.
    assert!(dir.is_symlink("var/lib/rpm"));
}

#[test]
fn chroot_ops_finds_the_initramfs_dracut_wrote() {
    let mut dir = mock();
    dir.mkdir_p("usr/lib/modules/6.9.0").unwrap();
    let t = TransformId::ChrootOps;
    assert_eq!(t.check(&observe(&dir, &t)), Ok(false));
    dir.write("usr/lib/modules/6.9.0/initramfs.img", "initramfs").unwrap();
    assert_eq!(t.check(&observe(&dir, &t)), Ok(true));
}

#[test]
fn dnf5_var_lib_rpm_link_is_pointed_at_the_relocated_database() {
    let mut dir = mock();
    dir.mkdir_p("usr/lib/sysimage/rpm").unwrap();
    dir.write("usr/lib/sysimage/rpm/rpmdb.sqlite", "dnf5-db").unwrap();
    dir.remove_dir_all("var/lib/rpm").unwrap();
    dir.symlink("../../usr/lib/sysimage/rpm", "var/lib/rpm").unwrap();
    let mut ctx = new_context(ImageManifest::default(), false);
    run_all(&mut ctx, &mut dir).unwrap();
    assert_eq!(dir.read("usr/share/rpm/rpmdb.sqlite").unwrap(), "dnf5-db");
    assert_eq!(dir.read_link("var/lib/rpm").unwrap(), "../../usr/share/rpm");
    assert_eq!(dir.read("var/lib/rpm/rpmdb.sqlite").unwrap(), "dnf5-db");
}

#[test]
fn boot_entry_of_unknown_type_is_removed_by_what_it_is() {
    let mut dir = mock();
    dir.mkdir_p("boot/loader/entries").unwrap();
    dir.write("boot/loader/entries/a.conf", "title a").unwrap();
    let t = TransformId::BootRelocate;
    let mut snap = observe(&dir, &t);
    // The listing of /boot could not tell the type of `loader`.
    for pr in snap.probes.iter_mut() {
        if pr.path == vec!["boot".to_string()] {
            if let Listing::Read(items) = &mut pr.listing {
                for it in items.iter_mut() {
                    if let DirItem::Entry(name, kind) = it {
                        if name == "loader" {
                            *kind = None;
                        }
                    }
                }
            }
        }
    }
    let ops = t.apply("/rootfs", &snap, &ImageManifest::default());
    assert!(ops.iter().any(|op| matches!(op, FsOp::RemovePath(p, _) if p == &vec!["boot".to_string(), "loader".to_string()])));
    execute(&mut dir, ops).unwrap();
    assert!(!dir.present("boot/loader"));
    assert_eq!(dir.read("usr/lib/ostree-boot/loader/entries/a.conf").unwrap(), "title a");
}

#[test]
fn config_transforms_write_what_the_manifest_asks_for() {
    let mut dir = mock();
    dir.mkdir_p("usr/lib/dracut/modules.d/91tpm2-tss").unwrap();
    dir.mkdir_p("var/lib/systemd").unwrap();
    dir.mkdir_p("usr/bin").unwrap();
    dir.write("usr/bin/dnf5", "dnf5").unwrap();
    dir.write(
        "usr/lib/tmpfiles.d/provision.conf",
        "d /root 0700 root root -\nf~ /root/.ssh/authorized_keys 600 root root -\n",
    )
    .unwrap();
    let mut manifest = ImageManifest::default();
    manifest.transforms.dracut.extra_modules = vec!["virtiofs".to_string()];
    manifest.transforms.systemd.enable_units = vec!["sshd.service".to_string()];
    manifest.transforms.systemd.disable_timers = vec!["dnf-makecache.timer".to_string()];
    let mut ctx = new_context(manifest, false);
    run_all(&mut ctx, &mut dir).unwrap();
    assert_eq!(
        dir.read("usr/lib/dracut/dracut.conf.d/10-bootc-base.conf").unwrap(),
        "hostonly=\"no\"\nadd_dracutmodules+=\" ostree bootc tpm2-tss virtiofs \"\ninstall_items+=\" /usr/lib/passwd /usr/lib/group \"\n"
    );
    assert_eq!(
        dir.read("usr/lib/systemd/system-preset/40-bootc-base.preset").unwrap(),
        "enable sshd.service\ndisable dnf-makecache.timer\n"
    );
    assert_eq!(
        dir.read_link("usr/lib/systemd/system/local-fs.target.wants/tmp.mount").unwrap(),
        "../tmp.mount"
    );
    assert_eq!(dir.read("etc/dnf/dnf.conf").unwrap(), "[main]\ninstallonly_limit=1\n");
    assert_eq!(
        dir.read("etc/dnf/libdnf5.conf.d/20-bootc-installonly.conf").unwrap(),
        "[main]\ninstallonly_limit=1\n"
    );
    assert_eq!(
        dir.read("usr/lib/tmpfiles.d/provision.conf").unwrap(),
        "d /var/roothome 0700 root root -\nf~ /var/roothome/.ssh/authorized_keys 600 root root -\n"
    );
    assert_eq!(
        dir.read("usr/lib/tmpfiles.d/bootc-base-var.conf").unwrap(),
        "d /var/home 0755 root root -\nd /var/roothome 0700 root root -\nd /var/lib/rpm-state 0755 root root -\nd /var/lib/systemd 0755 root root -\n"
    );
}

#[test]
fn provision_paths_are_moved_once_and_a_second_run_finds_them_fixed() {
    let mut dir = mock();
    dir.write("usr/lib/tmpfiles.d/provision.conf", "C /root /root\nd /rootfs 0755\n").unwrap();
    dir.write("etc/dnf/dnf.conf", "[main]").unwrap();
    let mut ctx = new_context(ImageManifest::default(), false);
    run_all(&mut ctx, &mut dir).unwrap();
    assert_eq!(
        dir.read("usr/lib/tmpfiles.d/provision.conf").unwrap(),
        "C /var/roothome /var/roothome\nd /rootfs 0755\n"
    );
    assert_eq!(dir.read("etc/dnf/dnf.conf").unwrap(), "[main]\ninstallonly_limit=1\n");
    let mut ctx2 = new_context(ImageManifest::default(), false);
    run_all(&mut ctx2, &mut dir).unwrap();
    let names = result_names(&ctx2);
    assert!(names.contains(&("var_tmpfiles".to_string(), "already correct".to_string())));
    assert!(names.contains(&("dnf_config".to_string(), "already correct".to_string())));
}
