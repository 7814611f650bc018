//! ostree prepare-root.conf and kernel-install layout configuration.

use vstd::prelude::*;

use super::{Phase, Transform};
use crate::rootfs::{
    owned, push_op, push_path, rel3, rel4, FsOp, FsOpV, PathV, ProbeV, RelPath, Snapshot, info,
};

verus! {

/// Write ostree and kernel-install configuration so bootc recognizes
/// the rootfs as composefs-enabled with a readonly sysroot.
#[derive(Debug)]
pub struct OstreeConfig;

pub open spec fn prepare_root_dir() -> PathV {
    seq!["usr"@, "lib"@, "ostree"@]
}

pub open spec fn prepare_root_conf() -> PathV {
    seq!["usr"@, "lib"@, "ostree"@, "prepare-root.conf"@]
}

pub open spec fn prepare_root_text() -> Seq<char> {
    "[composefs]\nenabled = true\n\n[sysroot]\nreadonly = true\n"@
}

pub open spec fn kernel_install_dir() -> PathV {
    seq!["usr"@, "lib"@, "kernel"@]
}

pub open spec fn kernel_install_conf() -> PathV {
    seq!["usr"@, "lib"@, "kernel"@, "install.conf"@]
}

pub open spec fn kernel_install_drop_dir() -> PathV {
    seq!["usr"@, "lib"@, "kernel"@, "install.conf.d"@]
}

pub open spec fn kernel_install_drop_conf() -> PathV {
    seq!["usr"@, "lib"@, "kernel"@, "install.conf.d"@, "00-bootc-kernel-layout.conf"@]
}

pub open spec fn layout_text() -> Seq<char> {
    "layout=ostree\n"@
}

impl Transform for OstreeConfig {
    open spec fn spec_name(&self) -> Seq<char> {
        "ostree_config"@
    }

    open spec fn spec_phase(&self) -> Phase {
        Phase::PreChroot
    }

    open spec fn spec_probes(&self, snap: Seq<ProbeV>) -> Seq<PathV> {
        seq![prepare_root_conf()]
    }

    open spec fn spec_check(&self, snap: Seq<ProbeV>) -> Result<bool, Seq<char>> {
        Ok(info(snap, prepare_root_conf()).exists)
    }

    open spec fn spec_plan(&self, rootfs: Seq<char>, snap: Seq<ProbeV>) -> Seq<FsOpV> {
        seq![
            FsOpV::CreateDirAll(prepare_root_dir(), "creating usr/lib/ostree"@),
            FsOpV::WriteFile(
                prepare_root_conf(),
                prepare_root_text(),
                "writing usr/lib/ostree/prepare-root.conf"@,
            ),
            FsOpV::CreateDirAll(kernel_install_dir(), "creating usr/lib/kernel"@),
            FsOpV::WriteFile(
                kernel_install_conf(),
                layout_text(),
                "writing usr/lib/kernel/install.conf"@,
            ),
            FsOpV::CreateDirAll(kernel_install_drop_dir(), "creating usr/lib/kernel/install.conf.d"@),
            FsOpV::WriteFile(
                kernel_install_drop_conf(),
                layout_text(),
                "writing usr/lib/kernel/install.conf.d/00-bootc-kernel-layout.conf"@,
            ),
        ]
    }

    fn name(&self) -> (r: String) {
        owned("ostree_config")
    }

    fn phase(&self) -> (r: Phase) {
        Phase::PreChroot
    }

    fn probes(&self, snap: &Snapshot) -> (r: Vec<RelPath>) {
        let mut r: Vec<RelPath> = Vec::new();
        push_path(&mut r, rel4("usr", "lib", "ostree", "prepare-root.conf"));
        assert(r.deep_view() =~= self.spec_probes(snap@));
        r
    }

    fn check(&self, snap: &Snapshot) -> (r: Result<bool, String>) {
        Ok(snap.exists_at(&rel4("usr", "lib", "ostree", "prepare-root.conf")))
    }

    fn apply(&self, rootfs: &str, snap: &Snapshot) -> (r: Vec<FsOp>) {
        let mut ops: Vec<FsOp> = Vec::new();
        push_op(
            &mut ops,
            FsOp::CreateDirAll(rel3("usr", "lib", "ostree"), owned("creating usr/lib/ostree")),
        );
        push_op(
            &mut ops,
            FsOp::WriteFile(
                rel4("usr", "lib", "ostree", "prepare-root.conf"),
                owned("[composefs]\nenabled = true\n\n[sysroot]\nreadonly = true\n"),
                owned("writing usr/lib/ostree/prepare-root.conf"),
            ),
        );
        push_op(
            &mut ops,
            FsOp::CreateDirAll(rel3("usr", "lib", "kernel"), owned("creating usr/lib/kernel")),
        );
        push_op(
            &mut ops,
            FsOp::WriteFile(
                rel4("usr", "lib", "kernel", "install.conf"),
                owned("layout=ostree\n"),
                owned("writing usr/lib/kernel/install.conf"),
            ),
        );
        push_op(
            &mut ops,
            FsOp::CreateDirAll(
                rel4("usr", "lib", "kernel", "install.conf.d"),
                owned("creating usr/lib/kernel/install.conf.d"),
            ),
        );
        let mut drop_conf = rel4("usr", "lib", "kernel", "install.conf.d");
        crate::rootfs::push_component(&mut drop_conf, "00-bootc-kernel-layout.conf");
        assert(drop_conf.deep_view() =~= kernel_install_drop_conf());
        push_op(
            &mut ops,
            FsOp::WriteFile(
                drop_conf,
                owned("layout=ostree\n"),
                owned("writing usr/lib/kernel/install.conf.d/00-bootc-kernel-layout.conf"),
            ),
        );
        assert(ops.deep_view() =~= self.spec_plan(rootfs@, snap@));
        ops
    }
}

/// What `ostree_config` writes: prepare-root.conf enabling composefs with
/// a read-only sysroot, and the ostree kernel-install layout both in
/// install.conf and in its drop-in.
pub proof fn law_ostree_config_writes(rootfs: Seq<char>, snap: Seq<ProbeV>)
    ensures
        exists|i: int|
            0 <= i < OstreeConfig.spec_plan(rootfs, snap).len() && #[trigger] OstreeConfig.spec_plan(
                rootfs,
                snap,
            )[i] == FsOpV::WriteFile(
                seq!["usr"@, "lib"@, "ostree"@, "prepare-root.conf"@],
                "[composefs]\nenabled = true\n\n[sysroot]\nreadonly = true\n"@,
                OstreeConfig.spec_plan(rootfs, snap)[i]->WriteFile_2,
            ),
        exists|i: int|
            0 <= i < OstreeConfig.spec_plan(rootfs, snap).len() && #[trigger] OstreeConfig.spec_plan(
                rootfs,
                snap,
            )[i] == FsOpV::WriteFile(
                seq!["usr"@, "lib"@, "kernel"@, "install.conf"@],
                "layout=ostree\n"@,
                OstreeConfig.spec_plan(rootfs, snap)[i]->WriteFile_2,
            ),
        exists|i: int|
            0 <= i < OstreeConfig.spec_plan(rootfs, snap).len() && #[trigger] OstreeConfig.spec_plan(
                rootfs,
                snap,
            )[i] == FsOpV::WriteFile(
                seq!["usr"@, "lib"@, "kernel"@, "install.conf.d"@, "00-bootc-kernel-layout.conf"@],
                "layout=ostree\n"@,
                OstreeConfig.spec_plan(rootfs, snap)[i]->WriteFile_2,
            ),
{
    let plan = OstreeConfig.spec_plan(rootfs, snap);
    assert(plan[1] == FsOpV::WriteFile(
        seq!["usr"@, "lib"@, "ostree"@, "prepare-root.conf"@],
        "[composefs]\nenabled = true\n\n[sysroot]\nreadonly = true\n"@,
        plan[1]->WriteFile_2,
    ));
    assert(plan[3] == FsOpV::WriteFile(
        seq!["usr"@, "lib"@, "kernel"@, "install.conf"@],
        "layout=ostree\n"@,
        plan[3]->WriteFile_2,
    ));
    assert(plan[5] == FsOpV::WriteFile(
        seq!["usr"@, "lib"@, "kernel"@, "install.conf.d"@, "00-bootc-kernel-layout.conf"@],
        "layout=ostree\n"@,
        plan[5]->WriteFile_2,
    ));
}

} // verus!
