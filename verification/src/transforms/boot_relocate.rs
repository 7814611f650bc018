//! Boot content relocation to /usr/lib/ostree-boot/ for ostree management.

use vstd::prelude::*;

use super::{Phase, Transform};
use crate::pathtext::{join, join_text};
use crate::rootfs::{
    child, concat, has_unreadable, info, lemma_has_unreadable_push, owned, push_op, push_path, rel1, rel3,
    DirItem, DirItemV, FsOp, FsOpV, Listing, ListingV, NodeKind, PathV, ProbeV, RelPath, Snapshot,
};

verus! {

/// Relocate /boot contents to /usr/lib/ostree-boot/ so that the boot
/// partition is managed by ostree/bootc rather than containing files
/// directly.
#[derive(Debug)]
pub struct BootRelocate;

pub open spec fn boot_dir() -> PathV {
    seq!["boot"@]
}

pub open spec fn ostree_boot_dir() -> PathV {
    seq!["usr"@, "lib"@, "ostree-boot"@]
}

/// The absolute path of /boot in the rootfs at `rootfs`.
pub open spec fn abs_boot(rootfs: Seq<char>) -> Seq<char> {
    join_text(rootfs, "boot"@)
}

/// The absolute path of the ostree boot directory in the rootfs.
pub open spec fn abs_ostree_boot(rootfs: Seq<char>) -> Seq<char> {
    join_text(rootfs, "usr/lib/ostree-boot"@)
}

/// Moving one entry of /boot: copy it preserving attributes, then remove
/// the original (a real directory with its contents); where the listing
/// could not tell its type, what it is at that moment decides.
pub open spec fn boot_item_ops(rootfs: Seq<char>, item: DirItemV) -> Seq<FsOpV> {
    match item {
        DirItemV::Unreadable => seq![FsOpV::Fail("reading entry in "@ + abs_boot(rootfs))],
        DirItemV::Entry(name, kind) => {
            let from = join_text(abs_boot(rootfs), name);
            let to = join_text(abs_ostree_boot(rootfs), name);
            seq![
                FsOpV::CopyPreserving(
                    boot_dir().push(name),
                    ostree_boot_dir().push(name),
                    "copying "@ + from + " -> "@ + to,
                    "cp -a failed for "@ + name,
                ),
                if kind == Some(NodeKind::Dir) {
                    FsOpV::RemoveDirAll(boot_dir().push(name), "removing "@ + from)
                } else if kind is None {
                    FsOpV::RemovePath(boot_dir().push(name), "removing "@ + from)
                } else {
                    FsOpV::RemoveFile(boot_dir().push(name), "removing "@ + from)
                },
            ]
        },
    }
}

/// The moves of the entries, in order, up to the first one that could not
/// be read.
pub open spec fn boot_moves(rootfs: Seq<char>, items: Seq<DirItemV>) -> Seq<FsOpV>
    decreases items.len(),
{
    if items.len() == 0 {
        seq![]
    } else if has_unreadable(items.drop_last()) {
        boot_moves(rootfs, items.drop_last())
    } else {
        boot_moves(rootfs, items.drop_last()) + boot_item_ops(rootfs, items.last())
    }
}

impl Transform for BootRelocate {
    open spec fn spec_name(&self) -> Seq<char> {
        "boot_relocate"@
    }

    open spec fn spec_phase(&self) -> Phase {
        Phase::PostChroot
    }

    open spec fn spec_probes(&self, snap: Seq<ProbeV>) -> Seq<PathV> {
        seq![ostree_boot_dir(), boot_dir()]
    }

    open spec fn spec_check(&self, snap: Seq<ProbeV>) -> Result<bool, Seq<char>> {
        if !info(snap, ostree_boot_dir()).exists {
            Ok(false)
        } else if info(snap, boot_dir()).is_dir {
            match info(snap, boot_dir()).listing {
                ListingV::Read(items) => Ok(items.len() == 0),
                _ => Err("reading boot"@),
            }
        } else {
            Ok(true)
        }
    }

    open spec fn spec_plan(&self, rootfs: Seq<char>, snap: Seq<ProbeV>) -> Seq<FsOpV> {
        let boot = info(snap, boot_dir());
        let moves: Seq<FsOpV> = if boot.is_dir {
            match boot.listing {
                ListingV::Read(items) => boot_moves(rootfs, items),
                _ => seq![FsOpV::Fail("reading "@ + abs_boot(rootfs))],
            }
        } else {
            seq![]
        };
        let recreate: Seq<FsOpV> = if !boot.exists {
            seq![FsOpV::CreateDirAll(boot_dir(), "creating boot"@)]
        } else {
            seq![]
        };
        seq![FsOpV::CreateDirAll(ostree_boot_dir(), "creating usr/lib/ostree-boot"@)] + moves
            + recreate
    }

    fn name(&self) -> (r: String) {
        owned("boot_relocate")
    }

    fn phase(&self) -> (r: Phase) {
        Phase::PostChroot
    }

    fn probes(&self, snap: &Snapshot) -> (r: Vec<RelPath>) {
        let mut r: Vec<RelPath> = Vec::new();
        push_path(&mut r, rel3("usr", "lib", "ostree-boot"));
        push_path(&mut r, rel1("boot"));
        assert(r.deep_view() =~= self.spec_probes(snap@));
        r
    }

    fn check(&self, snap: &Snapshot) -> (r: Result<bool, String>) {
        if !snap.exists_at(&rel3("usr", "lib", "ostree-boot")) {
            return Ok(false);
        }
        let boot = rel1("boot");
        if snap.is_dir_at(&boot) {
            match snap.get(&boot) {
                Some(pr) => match &pr.listing {
                    Listing::Read(items) => {
                        return Ok(items.len() == 0);
                    },
                    _ => {
                        return Err(owned("reading boot"));
                    },
                },
                None => {
                    return Err(owned("reading boot"));
                },
            }
        }
        Ok(true)
    }

    fn apply(&self, rootfs: &str, snap: &Snapshot) -> (r: Vec<FsOp>) {
        let mut ops: Vec<FsOp> = Vec::new();
        push_op(
            &mut ops,
            FsOp::CreateDirAll(
                rel3("usr", "lib", "ostree-boot"),
                owned("creating usr/lib/ostree-boot"),
            ),
        );
        let ghost start = ops.deep_view();
        let boot = rel1("boot");
        let ostree_boot = rel3("usr", "lib", "ostree-boot");
        let boot_abs = join(rootfs, "boot");
        let dest_abs = join(rootfs, "usr/lib/ostree-boot");
        let boot_info = snap.get(&boot);
        if snap.is_dir_at(&boot) {
            match boot_info {
                Some(pr) => match &pr.listing {
                    Listing::Read(items) => {
                        let ghost iv = items.deep_view();
                        let mut stopped = false;
                        assert(iv.take(0) =~= Seq::<DirItemV>::empty());
                        for i in 0..items.len()
                            invariant
                                iv == items.deep_view(),
                                boot.deep_view() == boot_dir(),
                                ostree_boot.deep_view() == ostree_boot_dir(),
                                boot_abs@ == abs_boot(rootfs@),
                                dest_abs@ == abs_ostree_boot(rootfs@),
                                stopped == has_unreadable(iv.take(i as int)),
                                ops.deep_view() == start + boot_moves(rootfs@, iv.take(i as int)),
                        {
                            proof {
                                lemma_has_unreadable_push(iv, i as int);
                                assert(iv.take(i + 1).drop_last() =~= iv.take(i as int));
                                assert(iv.take(i + 1).last() == iv[i as int]);
                            }
                            let ghost before = ops.deep_view();
                            if !stopped {
                                match &items[i] {
                                    DirItem::Unreadable => {
                                        push_op(
                                            &mut ops,
                                            FsOp::Fail(concat("reading entry in ", boot_abs.as_str())),
                                        );
                                        stopped = true;
                                    },
                                    DirItem::Entry(name, kind) => {
                                        let from = join(boot_abs.as_str(), name.as_str());
                                        let to = join(dest_abs.as_str(), name.as_str());
                                        let mut m = concat("copying ", from.as_str());
                                        m.append(" -> ");
                                        m.append(to.as_str());
                                        push_op(
                                            &mut ops,
                                            FsOp::CopyPreserving(
                                                child(&boot, name),
                                                child(&ostree_boot, name),
                                                m,
                                                concat("cp -a failed for ", name.as_str()),
                                            ),
                                        );
                                        let rm = concat("removing ", from.as_str());
                                        if *kind == Some(NodeKind::Dir) {
                                            push_op(&mut ops, FsOp::RemoveDirAll(child(&boot, name), rm));
                                        } else if kind.is_none() {
                                            push_op(&mut ops, FsOp::RemovePath(child(&boot, name), rm));
                                        } else {
                                            push_op(&mut ops, FsOp::RemoveFile(child(&boot, name), rm));
                                        }
                                    },
                                }
                                assert(ops.deep_view() =~= before + boot_item_ops(rootfs@, iv[i as int]));
                            }
                            assert(ops.deep_view() =~= start + boot_moves(rootfs@, iv.take(i + 1)));
                        }
                        assert(iv.take(items.len() as int) =~= iv);
                    },
                    _ => {
                        push_op(&mut ops, FsOp::Fail(concat("reading ", boot_abs.as_str())));
                    },
                },
                None => {
                    push_op(&mut ops, FsOp::Fail(concat("reading ", boot_abs.as_str())));
                },
            }
        }
        let ghost mid = ops.deep_view();
        if !snap.exists_at(&boot) {
            push_op(&mut ops, FsOp::CreateDirAll(rel1("boot"), owned("creating boot")));
        }
        assert(ops.deep_view() =~= self.spec_plan(rootfs@, snap@));
        ops
    }
}

} // verus!
