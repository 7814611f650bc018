//! passwd/group file propagation to the immutable /usr/lib layer.

use vstd::prelude::*;

use super::{Phase, Transform};
use crate::rootfs::{
    owned, push_op, push_path, rel2, rel3, FsOp, FsOpV, PathV, ProbeV, RelPath, Snapshot, info,
};

verus! {

/// Copy /etc/passwd and /etc/group into /usr/lib so they are available
/// on the immutable rootfs before /etc is mounted.
#[derive(Debug)]
pub struct PasswdGenerate;

pub open spec fn usr_lib_passwd() -> PathV {
    seq!["usr"@, "lib"@, "passwd"@]
}

impl Transform for PasswdGenerate {
    open spec fn spec_name(&self) -> Seq<char> {
        "passwd_generate"@
    }

    open spec fn spec_phase(&self) -> Phase {
        Phase::PreChroot
    }

    open spec fn spec_probes(&self, snap: Seq<ProbeV>) -> Seq<PathV> {
        seq![usr_lib_passwd()]
    }

    open spec fn spec_check(&self, snap: Seq<ProbeV>) -> Result<bool, Seq<char>> {
        Ok(info(snap, usr_lib_passwd()).exists)
    }

    open spec fn spec_plan(&self, rootfs: Seq<char>, snap: Seq<ProbeV>) -> Seq<FsOpV> {
        seq![
            FsOpV::CreateDirAll(seq!["usr"@, "lib"@], "creating usr/lib"@),
            FsOpV::CopyFile(
                seq!["etc"@, "passwd"@],
                usr_lib_passwd(),
                "reading etc/passwd"@,
                "writing usr/lib/passwd"@,
            ),
            FsOpV::CopyFile(
                seq!["etc"@, "group"@],
                seq!["usr"@, "lib"@, "group"@],
                "reading etc/group"@,
                "writing usr/lib/group"@,
            ),
        ]
    }

    fn name(&self) -> (r: String) {
        owned("passwd_generate")
    }

    fn phase(&self) -> (r: Phase) {
        Phase::PreChroot
    }

    fn probes(&self, snap: &Snapshot) -> (r: Vec<RelPath>) {
        let mut r: Vec<RelPath> = Vec::new();
        push_path(&mut r, rel3("usr", "lib", "passwd"));
        assert(r.deep_view() =~= self.spec_probes(snap@));
        r
    }

    fn check(&self, snap: &Snapshot) -> (r: Result<bool, String>) {
        Ok(snap.exists_at(&rel3("usr", "lib", "passwd")))
    }

    fn apply(&self, rootfs: &str, snap: &Snapshot) -> (r: Vec<FsOp>) {
        let mut ops: Vec<FsOp> = Vec::new();
        push_op(&mut ops, FsOp::CreateDirAll(rel2("usr", "lib"), owned("creating usr/lib")));
        push_op(
            &mut ops,
            FsOp::CopyFile(
                rel2("etc", "passwd"),
                rel3("usr", "lib", "passwd"),
                owned("reading etc/passwd"),
                owned("writing usr/lib/passwd"),
            ),
        );
        push_op(
            &mut ops,
            FsOp::CopyFile(
                rel2("etc", "group"),
                rel3("usr", "lib", "group"),
                owned("reading etc/group"),
                owned("writing usr/lib/group"),
            ),
        );
        assert(ops.deep_view() =~= self.spec_plan(rootfs@, snap@));
        ops
    }
}

/// What `passwd_generate` does: it copies etc/passwd to usr/lib/passwd
/// and etc/group to usr/lib/group.
pub proof fn law_passwd_copies(rootfs: Seq<char>, snap: Seq<ProbeV>)
    ensures
        exists|i: int|
            0 <= i < PasswdGenerate.spec_plan(rootfs, snap).len() && #[trigger] PasswdGenerate.spec_plan(
                rootfs,
                snap,
            )[i] is CopyFile && PasswdGenerate.spec_plan(rootfs, snap)[i]->CopyFile_0 == seq![
                "etc"@,
                "passwd"@,
            ] && PasswdGenerate.spec_plan(rootfs, snap)[i]->CopyFile_1 == seq!["usr"@, "lib"@, "passwd"@],
        exists|i: int|
            0 <= i < PasswdGenerate.spec_plan(rootfs, snap).len() && #[trigger] PasswdGenerate.spec_plan(
                rootfs,
                snap,
            )[i] is CopyFile && PasswdGenerate.spec_plan(rootfs, snap)[i]->CopyFile_0 == seq![
                "etc"@,
                "group"@,
            ] && PasswdGenerate.spec_plan(rootfs, snap)[i]->CopyFile_1 == seq!["usr"@, "lib"@, "group"@],
{
    let plan = PasswdGenerate.spec_plan(rootfs, snap);
    assert(plan[1] is CopyFile);
    assert(plan[2] is CopyFile);
}

} // verus!
