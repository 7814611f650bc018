//! Post-chroot cleanup: cache removal and stale rpmdb WAL/SHM cleanup.

use vstd::prelude::*;

use super::{Phase, Transform};
use crate::rootfs::{
    child, concat, info, owned, path_string, path_text, push_op, push_path, rel1, rel2,
    rel3, DirItem, DirItemV, FsOp, FsOpV, Listing, ListingV, NodeKind, PathV, ProbeV, RelPath,
    Snapshot,
};

verus! {

/// Final cleanup pass: remove caches, stale rpmdb WAL files, and
/// ensure ephemeral directories are empty.
#[derive(Debug)]
pub struct PostCleanup;

/// Directories whose contents should be removed entirely.
pub open spec fn clear_dirs() -> Seq<PathV> {
    seq![seq!["var"@, "cache"@], seq!["var"@, "tmp"@], seq!["var"@, "log"@], seq!["run"@], seq!["tmp"@]]
}

/// Directories that may contain stale rpmdb files.
pub open spec fn rpmdb_dirs() -> Seq<PathV> {
    seq![seq!["usr"@, "share"@, "rpm"@], seq!["var"@, "lib"@, "rpm"@]]
}

pub open spec fn wal_name() -> Seq<char> {
    "rpmdb.sqlite-wal"@
}

pub open spec fn shm_name() -> Seq<char> {
    "rpmdb.sqlite-shm"@
}

pub open spec fn clearing_msg(d: PathV) -> Seq<char> {
    "clearing "@ + path_text(d)
}

/// Whether clearing stops at this item: it, or its file type, could not be
/// read.
pub open spec fn stops_clearing(item: DirItemV) -> bool {
    item is Unreadable || item matches DirItemV::Entry(_, None)
}

pub open spec fn has_stop(items: Seq<DirItemV>) -> bool {
    exists|i: int| 0 <= i < items.len() && stops_clearing(#[trigger] items[i])
}

pub open spec fn clear_item_ops(d: PathV, item: DirItemV) -> Seq<FsOpV> {
    match item {
        DirItemV::Entry(name, Some(kind)) => if kind == NodeKind::Dir {
            seq![FsOpV::RemoveDirAll(d.push(name), clearing_msg(d))]
        } else {
            seq![FsOpV::RemoveFile(d.push(name), clearing_msg(d))]
        },
        _ => seq![FsOpV::Fail(clearing_msg(d))],
    }
}

/// Removing the entries of `d`, in order, up to the first that fails.
pub open spec fn clear_items(d: PathV, items: Seq<DirItemV>) -> Seq<FsOpV>
    decreases items.len(),
{
    if items.len() == 0 {
        seq![]
    } else if has_stop(items.drop_last()) {
        clear_items(d, items.drop_last())
    } else {
        clear_items(d, items.drop_last()) + clear_item_ops(d, items.last())
    }
}

/// Clearing one directory, when it is one.
pub open spec fn clear_dir_ops(snap: Seq<ProbeV>, d: PathV) -> Seq<FsOpV> {
    if info(snap, d).is_dir {
        match info(snap, d).listing {
            ListingV::Read(items) => clear_items(d, items),
            _ => seq![FsOpV::Fail(clearing_msg(d))],
        }
    } else {
        seq![]
    }
}

pub open spec fn clear_all_ops(snap: Seq<ProbeV>, ds: Seq<PathV>) -> Seq<FsOpV>
    decreases ds.len(),
{
    if ds.len() == 0 {
        seq![]
    } else {
        clear_all_ops(snap, ds.drop_last()) + clear_dir_ops(snap, ds.last())
    }
}

/// Removing the stale rpmdb files of an existing rpmdb directory: each is
/// removed if it still exists when its turn comes (the two directories may
/// be one, through the /var/lib/rpm link).
pub open spec fn stale_ops(snap: Seq<ProbeV>, d: PathV) -> Seq<FsOpV> {
    if info(snap, d).exists {
        seq![
            FsOpV::RemoveFileIfExists(d.push(wal_name()), "removing "@ + path_text(d.push(wal_name()))),
            FsOpV::RemoveFileIfExists(d.push(shm_name()), "removing "@ + path_text(d.push(shm_name()))),
        ]
    } else {
        seq![]
    }
}

proof fn lemma_has_stop_push(items: Seq<DirItemV>, i: int)
    requires
        0 <= i < items.len(),
    ensures
        has_stop(items.take(i + 1)) == (has_stop(items.take(i)) || stops_clearing(items[i])),
{
    let a = items.take(i + 1);
    let b = items.take(i);
    if has_stop(a) {
        let k = choose|k: int| 0 <= k < a.len() && stops_clearing(#[trigger] a[k]);
        if k < i {
            assert(stops_clearing(b[k]));
        }
    }
    if has_stop(b) {
        let k = choose|k: int| 0 <= k < b.len() && stops_clearing(#[trigger] b[k]);
        assert(stops_clearing(a[k]));
    }
    if stops_clearing(items[i]) {
        assert(stops_clearing(a[i]));
    }
}

fn clear_dir_exec(snap: &Snapshot, d: &RelPath, ops: &mut Vec<FsOp>)
    ensures
        final(ops).deep_view() == old(ops).deep_view() + clear_dir_ops(snap@, d.deep_view()),
{
    let ghost start = ops.deep_view();
    let ghost dv = d.deep_view();
    if !snap.is_dir_at(d) {
        assert(ops.deep_view() =~= start + clear_dir_ops(snap@, dv));
        return;
    }
    match snap.get(d) {
        Some(pr) => match &pr.listing {
            Listing::Read(items) => {
                let ghost iv = items.deep_view();
                let mut stopped = false;
                assert(iv.take(0) =~= Seq::<DirItemV>::empty());
                assert(ops.deep_view() =~= start + clear_items(dv, iv.take(0)));
                for i in 0..items.len()
                    invariant
                        iv == items.deep_view(),
                        dv == d.deep_view(),
                        stopped == has_stop(iv.take(i as int)),
                        ops.deep_view() == start + clear_items(dv, iv.take(i as int)),
                {
                    proof {
                        lemma_has_stop_push(iv, i as int);
                        assert(iv.take(i + 1).drop_last() =~= iv.take(i as int));
                        assert(iv.take(i + 1).last() == iv[i as int]);
                    }
                    let ghost before = ops.deep_view();
                    if !stopped {
                        match &items[i] {
                            DirItem::Entry(name, Some(kind)) => {
                                let m = concat("clearing ", path_string(d).as_str());
                                if *kind == NodeKind::Dir {
                                    push_op(ops, FsOp::RemoveDirAll(child(d, name), m));
                                } else {
                                    push_op(ops, FsOp::RemoveFile(child(d, name), m));
                                }
                            },
                            _ => {
                                push_op(ops, FsOp::Fail(concat("clearing ", path_string(d).as_str())));
                                stopped = true;
                            },
                        }
                        assert(ops.deep_view() =~= before + clear_item_ops(dv, iv[i as int]));
                    }
                    assert(ops.deep_view() =~= start + clear_items(dv, iv.take(i + 1)));
                }
                assert(iv.take(items.len() as int) =~= iv);
            },
            _ => {
                push_op(ops, FsOp::Fail(concat("clearing ", path_string(d).as_str())));
            },
        },
        None => {
            push_op(ops, FsOp::Fail(concat("clearing ", path_string(d).as_str())));
        },
    }
    assert(ops.deep_view() =~= start + clear_dir_ops(snap@, dv));
}

fn stale_exec(snap: &Snapshot, d: &RelPath, ops: &mut Vec<FsOp>)
    ensures
        final(ops).deep_view() == old(ops).deep_view() + stale_ops(snap@, d.deep_view()),
{
    let ghost start = ops.deep_view();
    if snap.exists_at(d) {
        let wal = child(d, &owned("rpmdb.sqlite-wal"));
        let m = concat("removing ", path_string(&wal).as_str());
        push_op(ops, FsOp::RemoveFileIfExists(wal, m));
        let shm = child(d, &owned("rpmdb.sqlite-shm"));
        let m = concat("removing ", path_string(&shm).as_str());
        push_op(ops, FsOp::RemoveFileIfExists(shm, m));
    }
    assert(ops.deep_view() =~= start + stale_ops(snap@, d.deep_view()));
}

fn clear_dirs_vec() -> (r: Vec<RelPath>)
    ensures
        r.deep_view() == clear_dirs(),
{
    let mut r: Vec<RelPath> = Vec::new();
    push_path(&mut r, rel2("var", "cache"));
    push_path(&mut r, rel2("var", "tmp"));
    push_path(&mut r, rel2("var", "log"));
    push_path(&mut r, rel1("run"));
    push_path(&mut r, rel1("tmp"));
    assert(r.deep_view() =~= clear_dirs());
    r
}

impl Transform for PostCleanup {
    open spec fn spec_name(&self) -> Seq<char> {
        "post_cleanup"@
    }

    open spec fn spec_phase(&self) -> Phase {
        Phase::PostChroot
    }

    open spec fn spec_probes(&self, snap: Seq<ProbeV>) -> Seq<PathV> {
        clear_dirs() + rpmdb_dirs()
    }

    /// Cleanup should always run.
    open spec fn spec_check(&self, snap: Seq<ProbeV>) -> Result<bool, Seq<char>> {
        Ok(false)
    }

    open spec fn spec_plan(&self, rootfs: Seq<char>, snap: Seq<ProbeV>) -> Seq<FsOpV> {
        clear_all_ops(snap, clear_dirs()) + stale_ops(snap, rpmdb_dirs()[0]) + stale_ops(
            snap,
            rpmdb_dirs()[1],
        )
    }

    fn name(&self) -> (r: String) {
        owned("post_cleanup")
    }

    fn phase(&self) -> (r: Phase) {
        Phase::PostChroot
    }

    fn probes(&self, snap: &Snapshot) -> (r: Vec<RelPath>) {
        let mut r = clear_dirs_vec();
        push_path(&mut r, rel3("usr", "share", "rpm"));
        push_path(&mut r, rel3("var", "lib", "rpm"));
        assert(r.deep_view() =~= self.spec_probes(snap@));
        r
    }

    fn check(&self, snap: &Snapshot) -> (r: Result<bool, String>) {
        Ok(false)
    }

    fn apply(&self, rootfs: &str, snap: &Snapshot) -> (r: Vec<FsOp>) {
        let dirs = clear_dirs_vec();
        let ghost ds = clear_dirs();
        let mut ops: Vec<FsOp> = Vec::new();
        assert(ds.take(0) =~= Seq::<PathV>::empty());
        for i in 0..dirs.len()
            invariant
                dirs.deep_view() == ds,
                ds == clear_dirs(),
                ops.deep_view() == clear_all_ops(snap@, ds.take(i as int)),
        {
            assert(ds.take(i + 1).drop_last() =~= ds.take(i as int));
            assert(ds.take(i + 1).last() == ds[i as int]);
            clear_dir_exec(snap, &dirs[i], &mut ops);
        }
        assert(ds.take(5) =~= ds);
        stale_exec(snap, &rel3("usr", "share", "rpm"), &mut ops);
        stale_exec(snap, &rel3("var", "lib", "rpm"), &mut ops);
        ops
    }
}

} // verus!
