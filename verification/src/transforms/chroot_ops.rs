//! Chroot operation orchestration: depmod, dracut, presets, bootupd.

use vstd::prelude::*;

use super::{Phase, Transform};
use crate::rootfs::{
    info, owned, push_component, push_op, push_path, rel1, rel3, rel4, DirItem, DirItemV,
    FsOp, FsOpV, Listing, ListingV, NodeKind, PathV, ProbeV, RelPath, Snapshot,
};

verus! {

/// Runs chroot operations on the rootfs: depmod, dracut initramfs
/// generation, systemd preset-all, and bootupd metadata.
#[derive(Debug)]
pub struct ChrootOps;

pub open spec fn modules_dir() -> PathV {
    seq!["usr"@, "lib"@, "modules"@]
}

pub open spec fn bootupctl_path() -> PathV {
    seq!["usr"@, "bin"@, "bootupctl"@]
}

pub open spec fn bootupd_updates() -> PathV {
    seq!["usr"@, "lib"@, "bootupd"@, "updates"@]
}

pub open spec fn initramfs_name(kver: Seq<char>) -> Seq<char> {
    "initramfs-"@ + kver + ".img"@
}

/// Where an initramfs lives before boot relocation.
pub open spec fn boot_initramfs(kver: Seq<char>) -> PathV {
    seq!["boot"@, initramfs_name(kver)]
}

/// Where an initramfs lives after boot relocation.
pub open spec fn ostree_boot_initramfs(kver: Seq<char>) -> PathV {
    seq!["usr"@, "lib"@, "ostree-boot"@, initramfs_name(kver)]
}

/// Where dracut writes the initramfs of a kernel.
pub open spec fn modules_initramfs(kver: Seq<char>) -> PathV {
    seq!["usr"@, "lib"@, "modules"@, kver, "initramfs.img"@]
}

/// Whether the snapshot shows an initramfs of the kernel in any of its
/// locations.
pub open spec fn has_initramfs(snap: Seq<ProbeV>, k: Seq<char>) -> bool {
    info(snap, boot_initramfs(k)).exists || info(snap, ostree_boot_initramfs(k)).exists || info(
        snap,
        modules_initramfs(k),
    ).exists
}

/// The initramfs locations of the kernels (directory entries) listed.
pub open spec fn kernel_paths(items: Seq<DirItemV>) -> Seq<PathV>
    decreases items.len(),
{
    if items.len() == 0 {
        seq![]
    } else {
        kernel_paths(items.drop_last()) + match items.last() {
            DirItemV::Entry(k, Some(NodeKind::Dir)) => seq![
                boot_initramfs(k),
                ostree_boot_initramfs(k),
                modules_initramfs(k),
            ],
            _ => seq![],
        }
    }
}

/// Scans the kernels in order: `Some` with the outcome as soon as one is
/// decided (an unreadable entry, or a kernel without an initramfs in any
/// location), `None` when every kernel has one.
pub open spec fn scan_kernels(snap: Seq<ProbeV>, items: Seq<DirItemV>) -> Option<
    Result<bool, Seq<char>>,
>
    decreases items.len(),
{
    if items.len() == 0 {
        None
    } else {
        match items[0] {
            DirItemV::Unreadable => Some(Err("reading entry in usr/lib/modules"@)),
            DirItemV::Entry(_, None) => Some(Err("file type in usr/lib/modules"@)),
            DirItemV::Entry(k, Some(kind)) => if kind == NodeKind::Dir && !has_initramfs(snap, k) {
                Some(Ok(false))
            } else {
                scan_kernels(snap, items.drop_first())
            },
        }
    }
}

fn initramfs_name_exec(kver: &String) -> (r: String)
    ensures
        r@ == initramfs_name(kver@),
{
    let mut r = owned("initramfs-");
    r.append(kver.as_str());
    r.append(".img");
    r
}

fn modules_initramfs_exec(kver: &String) -> (r: RelPath)
    ensures
        r.deep_view() == modules_initramfs(kver@),
{
    let mut r = rel3("usr", "lib", "modules");
    push_component(&mut r, kver.as_str());
    push_component(&mut r, "initramfs.img");
    assert(r.deep_view() =~= modules_initramfs(kver@));
    r
}

impl Transform for ChrootOps {
    open spec fn spec_name(&self) -> Seq<char> {
        "chroot_ops"@
    }

    open spec fn spec_phase(&self) -> Phase {
        Phase::Chroot
    }

    open spec fn spec_probes(&self, snap: Seq<ProbeV>) -> Seq<PathV> {
        seq![modules_dir(), bootupctl_path(), bootupd_updates()] + match info(
            snap,
            modules_dir(),
        ).listing {
            ListingV::Read(items) => kernel_paths(items),
            _ => seq![],
        }
    }

    open spec fn spec_check(&self, snap: Seq<ProbeV>) -> Result<bool, Seq<char>> {
        if !info(snap, modules_dir()).is_dir {
            Ok(true)
        } else {
            match info(snap, modules_dir()).listing {
                ListingV::Read(items) => match scan_kernels(snap, items) {
                    Some(r) => r,
                    None => if info(snap, bootupctl_path()).exists && !info(
                        snap,
                        bootupd_updates(),
                    ).exists {
                        Ok(false)
                    } else {
                        Ok(true)
                    },
                },
                ListingV::OpenFailed => Err("opening usr/lib/modules"@),
                _ => Err("reading usr/lib/modules"@),
            }
        }
    }

    open spec fn spec_plan(&self, rootfs: Seq<char>, snap: Seq<ProbeV>) -> Seq<FsOpV> {
        seq![FsOpV::RunChrootOperations]
    }

    fn name(&self) -> (r: String) {
        owned("chroot_ops")
    }

    fn phase(&self) -> (r: Phase) {
        Phase::Chroot
    }

    fn probes(&self, snap: &Snapshot) -> (r: Vec<RelPath>) {
        let mut r: Vec<RelPath> = Vec::new();
        let modules = rel3("usr", "lib", "modules");
        push_path(&mut r, rel3("usr", "lib", "modules"));
        push_path(&mut r, rel3("usr", "bin", "bootupctl"));
        push_path(&mut r, rel4("usr", "lib", "bootupd", "updates"));
        let ghost head = r.deep_view();
        match snap.get(&modules) {
            Some(pr) => match &pr.listing {
                Listing::Read(items) => {
                    let ghost iv = items.deep_view();
                    assert(iv.take(0) =~= Seq::<DirItemV>::empty());
                    assert(r.deep_view() =~= head + kernel_paths(iv.take(0)));
                    for i in 0..items.len()
                        invariant
                            iv == items.deep_view(),
                            r.deep_view() == head + kernel_paths(iv.take(i as int)),
                    {
                        assert(iv.take(i + 1).drop_last() =~= iv.take(i as int));
                        assert(iv.take(i + 1).last() == iv[i as int]);
                        let ghost before = r.deep_view();
                        match &items[i] {
                            DirItem::Entry(k, Some(kind)) => {
                                if *kind == NodeKind::Dir {
                                    let name = initramfs_name_exec(k);
                                    let mut boot = rel1("boot");
                                    push_component(&mut boot, name.as_str());
                                    let mut ob = rel3("usr", "lib", "ostree-boot");
                                    push_component(&mut ob, name.as_str());
                                    assert(boot.deep_view() =~= boot_initramfs(k@));
                                    assert(ob.deep_view() =~= ostree_boot_initramfs(k@));
                                    let mi = modules_initramfs_exec(k);
                                    push_path(&mut r, boot);
                                    push_path(&mut r, ob);
                                    push_path(&mut r, mi);
                                }
                            },
                            _ => {},
                        }
                        assert(r.deep_view() =~= head + kernel_paths(iv.take(i + 1)));
                    }
                    assert(iv.take(items.len() as int) =~= iv);
                },
                _ => {},
            },
            None => {},
        }
        assert(r.deep_view() =~= self.spec_probes(snap@));
        r
    }

    fn check(&self, snap: &Snapshot) -> (r: Result<bool, String>) {
        let modules = rel3("usr", "lib", "modules");
        if !snap.is_dir_at(&modules) {
            return Ok(true);
        }
        match snap.get(&modules) {
            Some(pr) => match &pr.listing {
                Listing::Read(items) => {
                    let ghost iv = items.deep_view();
                    assert(info(snap@, modules_dir()).listing == ListingV::Read(iv));
                    assert(iv.skip(0) =~= iv);
                    for i in 0..items.len()
                        invariant
                            iv == items.deep_view(),
                            modules.deep_view() == modules_dir(),
                            info(snap@, modules_dir()).is_dir,
                            info(snap@, modules_dir()).listing == ListingV::Read(iv),
                            scan_kernels(snap@, iv) == scan_kernels(snap@, iv.skip(i as int)),
                    {
                        assert(iv.skip(i as int).drop_first() =~= iv.skip(i + 1));
                        assert(iv.skip(i as int)[0] == iv[i as int]);
                        match &items[i] {
                            DirItem::Unreadable => {
                                return Err(owned("reading entry in usr/lib/modules"));
                            },
                            DirItem::Entry(_, None) => {
                                return Err(owned("file type in usr/lib/modules"));
                            },
                            DirItem::Entry(k, Some(kind)) => {
                                if *kind == NodeKind::Dir {
                                    let name = initramfs_name_exec(k);
                                    let mut boot = rel1("boot");
                                    push_component(&mut boot, name.as_str());
                                    let mut ob = rel3("usr", "lib", "ostree-boot");
                                    push_component(&mut ob, name.as_str());
                                    assert(boot.deep_view() =~= boot_initramfs(k@));
                                    assert(ob.deep_view() =~= ostree_boot_initramfs(k@));
                                    let mi = modules_initramfs_exec(k);
                                    if !snap.exists_at(&boot) && !snap.exists_at(&ob)
                                        && !snap.exists_at(&mi) {
                                        return Ok(false);
                                    }
                                }
                            },
                        }
                    }
                    assert(iv.skip(items.len() as int).len() == 0);
                },
                Listing::OpenFailed => {
                    return Err(owned("opening usr/lib/modules"));
                },
                _ => {
                    return Err(owned("reading usr/lib/modules"));
                },
            },
            None => {
                return Err(owned("reading usr/lib/modules"));
            },
        }
        if snap.exists_at(&rel3("usr", "bin", "bootupctl")) && !snap.exists_at(
            &rel4("usr", "lib", "bootupd", "updates"),
        ) {
            return Ok(false);
        }
        Ok(true)
    }

    fn apply(&self, rootfs: &str, snap: &Snapshot) -> (r: Vec<FsOp>) {
        let mut ops: Vec<FsOp> = Vec::new();
        push_op(&mut ops, FsOp::RunChrootOperations);
        assert(ops.deep_view() =~= self.spec_plan(rootfs@, snap@));
        ops
    }
}


/// Whether every entry of a listing is readable, and every kernel
/// directory among them has an initramfs.
pub open spec fn kernels_ready(snap: Seq<ProbeV>, items: Seq<DirItemV>) -> bool {
    forall|i: int|
        0 <= i < items.len() ==> match #[trigger] items[i] {
            DirItemV::Entry(k, Some(kind)) => kind == NodeKind::Dir ==> has_initramfs(snap, k),
            _ => false,
        }
}

proof fn lemma_scan_ready(snap: Seq<ProbeV>, items: Seq<DirItemV>)
    requires
        kernels_ready(snap, items),
    ensures
        scan_kernels(snap, items) is None,
    decreases items.len(),
{
    if items.len() > 0 {
        let _ = items[0];
        assert forall|i: int| 0 <= i < items.drop_first().len() implies match #[trigger] items.drop_first()[i] {
            DirItemV::Entry(k, Some(kind)) => kind == NodeKind::Dir ==> has_initramfs(snap, k),
            _ => false,
        } by {
            assert(items.drop_first()[i] == items[i + 1]);
        }
        lemma_scan_ready(snap, items.drop_first());
    }
}

/// The chroot step finds its work done once every kernel has an
/// initramfs (where dracut writes it, or in /boot or the ostree boot
/// directory) and the bootupd metadata exists when bootupctl is
/// installed.
pub proof fn law_chroot_ops_done_when_initramfs_present(snap: Seq<ProbeV>)
    requires
        info(snap, modules_dir()).listing matches ListingV::Read(items) && kernels_ready(snap, items),
        info(snap, bootupctl_path()).exists ==> info(snap, bootupd_updates()).exists,
    ensures
        ChrootOps.spec_check(snap) == Ok::<bool, Seq<char>>(true),
{
    if info(snap, modules_dir()).is_dir {
        if let ListingV::Read(items) = info(snap, modules_dir()).listing {
            lemma_scan_ready(snap, items);
        }
    }
}

} // verus!
