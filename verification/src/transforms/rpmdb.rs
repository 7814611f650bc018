//! RPM database relocation to the immutable /usr partition.

use vstd::prelude::*;

use super::{Phase, Transform};
use crate::pathtext::{ends_with, ends_with_text, same_path, same_path_text};
use crate::rootfs::{
    child, concat, copy_path, has_unreadable, info, lemma_has_unreadable_push, owned, path_string,
    path_text, push_op, push_path, rel3, rel4, DirItem, DirItemV, FsOp, FsOpV, Listing, ListingV,
    NodeKind, PathV, ProbeV, RelPath, Snapshot,
};

verus! {

/// Relocate the RPM database from /var/lib/rpm to /usr/share/rpm so that
/// it lives on the immutable /usr partition.
#[derive(Debug)]
pub struct RpmdbRelocate;

/// dnf5 / Fedora 42+ location of the rpmdb (checked first).
pub open spec fn sysimage_rpm() -> PathV {
    seq!["usr"@, "lib"@, "sysimage"@, "rpm"@]
}

/// dnf4 / traditional location of the rpmdb; also where the link goes.
pub open spec fn var_lib_rpm() -> PathV {
    seq!["var"@, "lib"@, "rpm"@]
}

pub open spec fn dest_dir() -> PathV {
    seq!["usr"@, "share"@, "rpm"@]
}

pub open spec fn dest_db() -> PathV {
    seq!["usr"@, "share"@, "rpm"@, "rpmdb.sqlite"@]
}

pub open spec fn macros_dir() -> PathV {
    seq!["usr"@, "lib"@, "rpm"@, "macros.d"@]
}

pub open spec fn macros_file() -> PathV {
    seq!["usr"@, "lib"@, "rpm"@, "macros.d"@, "macros.rpm-ostree"@]
}

/// Whether a file name is that of a database file.
pub open spec fn is_db_name(name: Seq<char>) -> bool {
    ends_with(name, ".sqlite"@) || ends_with(name, ".db"@)
}

/// Whether a listing holds a database file (unreadable items are passed
/// over).
pub open spec fn has_db_files(l: ListingV) -> bool {
    match l {
        ListingV::Read(items) => exists|i: int|
            #![trigger items[i]]
            0 <= i < items.len() && (items[i] matches DirItemV::Entry(n, _) && is_db_name(n)),
        _ => false,
    }
}

/// Whether the rpmdb can be taken from `p`: a real directory (not a
/// symlink) holding database files.
pub open spec fn usable_src(snap: Seq<ProbeV>, p: PathV) -> bool {
    info(snap, p).lstat == Some(NodeKind::Dir) && has_db_files(info(snap, p).listing)
}

/// The directory the rpmdb is moved from: the first usable one, else the
/// dnf5 location.
pub open spec fn rpmdb_src(snap: Seq<ProbeV>) -> PathV {
    if usable_src(snap, sysimage_rpm()) {
        sysimage_rpm()
    } else if usable_src(snap, var_lib_rpm()) {
        var_lib_rpm()
    } else {
        sysimage_rpm()
    }
}

pub open spec fn rename_item_ops(src: PathV, item: DirItemV) -> Seq<FsOpV> {
    match item {
        DirItemV::Unreadable => seq![FsOpV::Fail("reading entry in "@ + path_text(src))],
        DirItemV::Entry(name, _) => seq![
            FsOpV::Rename(
                src.push(name),
                dest_dir().push(name),
                "moving "@ + path_text(src.push(name)) + " -> "@ + path_text(dest_dir().push(name)),
            ),
        ],
    }
}

/// The renames of the entries into the destination, up to the first one
/// that could not be read.
pub open spec fn renames(src: PathV, items: Seq<DirItemV>) -> Seq<FsOpV>
    decreases items.len(),
{
    if items.len() == 0 {
        seq![]
    } else if has_unreadable(items.drop_last()) {
        renames(src, items.drop_last())
    } else {
        renames(src, items.drop_last()) + rename_item_ops(src, items.last())
    }
}

/// Move the contents of a real source directory, then remove it.
pub open spec fn move_ops(snap: Seq<ProbeV>, src: PathV) -> Seq<FsOpV> {
    if info(snap, src).lstat == Some(NodeKind::Dir) {
        match info(snap, src).listing {
            ListingV::Read(items) => renames(src, items) + seq![
                FsOpV::RemoveDirAll(src, "removing "@ + path_text(src)),
            ],
            ListingV::OpenFailed => seq![FsOpV::Fail("opening "@ + path_text(src))],
            _ => seq![FsOpV::Fail("reading "@ + path_text(src))],
        }
    } else {
        seq![]
    }
}

/// Where /var/lib/rpm points once the database is relocated.
pub open spec fn rpm_link_target() -> Seq<char> {
    "../../usr/share/rpm"@
}

/// Whether /var/lib/rpm is, in the snapshot, a symlink to the destination
/// (and was not the directory the database was moved from).
pub open spec fn var_linked(snap: Seq<ProbeV>, src: PathV) -> bool {
    let moved = info(snap, src).lstat == Some(NodeKind::Dir) && src == var_lib_rpm();
    let v = info(snap, var_lib_rpm());
    &&& !moved
    &&& v.lstat == Some(NodeKind::Symlink)
    &&& v.link_target matches Some(t) && same_path(t, rpm_link_target())
}

/// Make /var/lib/rpm a symlink to the destination: a real directory there
/// is removed, and so is a symlink that points elsewhere (such as the one
/// dnf5 leaves to /usr/lib/sysimage/rpm); a symlink to the destination is
/// kept.
pub open spec fn var_link_ops(snap: Seq<ProbeV>, src: PathV) -> Seq<FsOpV> {
    let moved = info(snap, src).lstat == Some(NodeKind::Dir) && src == var_lib_rpm();
    let v = info(snap, var_lib_rpm());
    let remove = !moved && v.exists && v.lstat == Some(NodeKind::Dir);
    let stale_link = !moved && v.lstat == Some(NodeKind::Symlink) && !var_linked(snap, src);
    let removal: Seq<FsOpV> = if remove {
        seq![FsOpV::RemoveDirAll(var_lib_rpm(), "removing var/lib/rpm"@)]
    } else if stale_link {
        seq![FsOpV::RemoveFile(var_lib_rpm(), "removing symlink var/lib/rpm"@)]
    } else {
        seq![]
    };
    let link: Seq<FsOpV> = if !var_linked(snap, src) {
        seq![
            FsOpV::CreateDirAll(seq!["var"@, "lib"@], "creating var/lib"@),
            FsOpV::Symlink(rpm_link_target(), var_lib_rpm(), "creating symlink var/lib/rpm"@),
        ]
    } else {
        seq![]
    };
    removal + link
}

/// Whether the snapshot shows `p` as a symlink to the destination.
fn links_to_dest(snap: &Snapshot, p: &RelPath) -> (r: bool)
    ensures
        r == (info(snap@, p.deep_view()).lstat == Some(NodeKind::Symlink) && (info(
            snap@,
            p.deep_view(),
        ).link_target matches Some(t) && same_path(t, rpm_link_target()))),
{
    if snap.lstat_at(p) != Some(NodeKind::Symlink) {
        return false;
    }
    match snap.get(p) {
        Some(pr) => match &pr.link_target {
            Some(t) => same_path_text(t.as_str(), "../../usr/share/rpm"),
            None => false,
        },
        None => false,
    }
}

fn has_db_files_exec(l: &Listing) -> (r: bool)
    ensures
        r == has_db_files(l.deep_view()),
{
    match l {
        Listing::Read(items) => {
            let ghost iv = items.deep_view();
            assert(l.deep_view() == ListingV::Read(iv));
            for i in 0..items.len()
                invariant
                    iv == items.deep_view(),
                    l.deep_view() == ListingV::Read(iv),
                    forall|j: int|
                        #![trigger iv[j]]
                        0 <= j < i ==> !(iv[j] matches DirItemV::Entry(n, _) && is_db_name(n)),
            {
                match &items[i] {
                    DirItem::Entry(name, _) => {
                        if ends_with_text(name.as_str(), ".sqlite") || ends_with_text(
                            name.as_str(),
                            ".db",
                        ) {
                            assert(iv[i as int] matches DirItemV::Entry(n, _) && is_db_name(n));
                            assert(l.deep_view() == ListingV::Read(iv));
                            return true;
                        }
                    },
                    DirItem::Unreadable => {},
                }
            }
            false
        },
        _ => false,
    }
}

fn usable_src_exec(snap: &Snapshot, p: &RelPath) -> (r: bool)
    ensures
        r == usable_src(snap@, p.deep_view()),
{
    if snap.lstat_at(p) != Some(NodeKind::Dir) {
        return false;
    }
    match snap.get(p) {
        Some(pr) => has_db_files_exec(&pr.listing),
        None => false,
    }
}

fn rpmdb_src_exec(snap: &Snapshot) -> (r: RelPath)
    ensures
        r.deep_view() == rpmdb_src(snap@),
{
    let sysimage = rel4("usr", "lib", "sysimage", "rpm");
    if usable_src_exec(snap, &sysimage) {
        return sysimage;
    }
    let var = rel3("var", "lib", "rpm");
    if usable_src_exec(snap, &var) {
        return var;
    }
    sysimage
}

fn move_ops_exec(snap: &Snapshot, src: &RelPath, ops: &mut Vec<FsOp>)
    ensures
        final(ops).deep_view() == old(ops).deep_view() + move_ops(snap@, src.deep_view()),
{
    let ghost start = ops.deep_view();
    if snap.lstat_at(src) != Some(NodeKind::Dir) {
        assert(ops.deep_view() =~= start + move_ops(snap@, src.deep_view()));
        return;
    }
    let dest = rel3("usr", "share", "rpm");
    match snap.get(src) {
        Some(pr) => match &pr.listing {
            Listing::Read(items) => {
                let ghost iv = items.deep_view();
                let ghost sv = src.deep_view();
                let mut stopped = false;
                assert(iv.take(0) =~= Seq::<DirItemV>::empty());
                assert(ops.deep_view() =~= start + renames(sv, iv.take(0)));
                for i in 0..items.len()
                    invariant
                        iv == items.deep_view(),
                        sv == src.deep_view(),
                        dest.deep_view() == dest_dir(),
                        stopped == has_unreadable(iv.take(i as int)),
                        ops.deep_view() == start + renames(sv, iv.take(i as int)),
                {
                    proof {
                        lemma_has_unreadable_push(iv, i as int);
                        assert(iv.take(i + 1).drop_last() =~= iv.take(i as int));
                        assert(iv.take(i + 1).last() == iv[i as int]);
                    }
                    let ghost before = ops.deep_view();
                    if !stopped {
                        match &items[i] {
                            DirItem::Unreadable => {
                                let msg = concat("reading entry in ", path_string(src).as_str());
                                push_op(ops, FsOp::Fail(msg));
                                stopped = true;
                            },
                            DirItem::Entry(name, _) => {
                                let from = child(src, name);
                                let to = child(&dest, name);
                                let mut m = concat("moving ", path_string(&from).as_str());
                                m.append(" -> ");
                                m.append(path_string(&to).as_str());
                                push_op(ops, FsOp::Rename(from, to, m));
                            },
                        }
                        assert(ops.deep_view() =~= before + rename_item_ops(sv, iv[i as int]));
                    }
                    assert(ops.deep_view() =~= start + renames(sv, iv.take(i + 1)));
                }
                assert(iv.take(items.len() as int) =~= iv);
                let m = concat("removing ", path_string(src).as_str());
                push_op(ops, FsOp::RemoveDirAll(copy_path(src), m));
            },
            Listing::OpenFailed => {
                push_op(ops, FsOp::Fail(concat("opening ", path_string(src).as_str())));
            },
            _ => {
                push_op(ops, FsOp::Fail(concat("reading ", path_string(src).as_str())));
            },
        },
        None => {
            push_op(ops, FsOp::Fail(concat("reading ", path_string(src).as_str())));
        },
    }
    assert(ops.deep_view() =~= start + move_ops(snap@, src.deep_view()));
}

impl Transform for RpmdbRelocate {
    open spec fn spec_name(&self) -> Seq<char> {
        "rpmdb_relocate"@
    }

    open spec fn spec_phase(&self) -> Phase {
        Phase::PreChroot
    }

    open spec fn spec_probes(&self, snap: Seq<ProbeV>) -> Seq<PathV> {
        seq![sysimage_rpm(), var_lib_rpm(), dest_db()]
    }

    open spec fn spec_check(&self, snap: Seq<ProbeV>) -> Result<bool, Seq<char>> {
        Ok(info(snap, dest_db()).exists)
    }

    open spec fn spec_plan(&self, rootfs: Seq<char>, snap: Seq<ProbeV>) -> Seq<FsOpV> {
        let src = rpmdb_src(snap);
        seq![FsOpV::CreateDirAll(dest_dir(), "creating usr/share/rpm"@)] + move_ops(snap, src)
            + var_link_ops(snap, src) + seq![
            FsOpV::CreateDirAll(macros_dir(), "creating usr/lib/rpm/macros.d"@),
            FsOpV::WriteFile(
                macros_file(),
                "%_dbpath /usr/share/rpm\n"@,
                "writing usr/lib/rpm/macros.d/macros.rpm-ostree"@,
            ),
        ]
    }

    fn name(&self) -> (r: String) {
        owned("rpmdb_relocate")
    }

    fn phase(&self) -> (r: Phase) {
        Phase::PreChroot
    }

    fn probes(&self, snap: &Snapshot) -> (r: Vec<RelPath>) {
        let mut r: Vec<RelPath> = Vec::new();
        push_path(&mut r, rel4("usr", "lib", "sysimage", "rpm"));
        push_path(&mut r, rel3("var", "lib", "rpm"));
        push_path(&mut r, rel4("usr", "share", "rpm", "rpmdb.sqlite"));
        assert(r.deep_view() =~= self.spec_probes(snap@));
        r
    }

    fn check(&self, snap: &Snapshot) -> (r: Result<bool, String>) {
        Ok(snap.exists_at(&rel4("usr", "share", "rpm", "rpmdb.sqlite")))
    }

    fn apply(&self, rootfs: &str, snap: &Snapshot) -> (r: Vec<FsOp>) {
        let mut ops: Vec<FsOp> = Vec::new();
        push_op(
            &mut ops,
            FsOp::CreateDirAll(rel3("usr", "share", "rpm"), owned("creating usr/share/rpm")),
        );
        let src = rpmdb_src_exec(snap);
        move_ops_exec(snap, &src, &mut ops);
        let ghost mid = ops.deep_view();
        let var = rel3("var", "lib", "rpm");
        let moved = snap.lstat_at(&src) == Some(NodeKind::Dir) && crate::rootfs::path_eq(&src, &var);
        let var_lstat = snap.lstat_at(&var);
        let remove = !moved && snap.exists_at(&var) && var_lstat == Some(NodeKind::Dir);
        let linked = !moved && links_to_dest(snap, &var);
        let stale_link = !moved && var_lstat == Some(NodeKind::Symlink) && !linked;
        if remove {
            push_op(
                &mut ops,
                FsOp::RemoveDirAll(rel3("var", "lib", "rpm"), owned("removing var/lib/rpm")),
            );
        } else if stale_link {
            push_op(
                &mut ops,
                FsOp::RemoveFile(rel3("var", "lib", "rpm"), owned("removing symlink var/lib/rpm")),
            );
        }
        if !linked {
            push_op(
                &mut ops,
                FsOp::CreateDirAll(crate::rootfs::rel2("var", "lib"), owned("creating var/lib")),
            );
            push_op(
                &mut ops,
                FsOp::Symlink(
                    owned("../../usr/share/rpm"),
                    rel3("var", "lib", "rpm"),
                    owned("creating symlink var/lib/rpm"),
                ),
            );
        }
        proof {
            reveal_strlit("../../usr/share/rpm");
        }
        assert(ops.deep_view() =~= mid + var_link_ops(snap@, src.deep_view()));
        push_op(
            &mut ops,
            FsOp::CreateDirAll(
                rel4("usr", "lib", "rpm", "macros.d"),
                owned("creating usr/lib/rpm/macros.d"),
            ),
        );
        let mut macros = rel4("usr", "lib", "rpm", "macros.d");
        crate::rootfs::push_component(&mut macros, "macros.rpm-ostree");
        assert(macros.deep_view() =~= macros_file());
        push_op(
            &mut ops,
            FsOp::WriteFile(
                macros,
                owned("%_dbpath /usr/share/rpm\n"),
                owned("writing usr/lib/rpm/macros.d/macros.rpm-ostree"),
            ),
        );
        assert(ops.deep_view() =~= self.spec_plan(rootfs@, snap@));
        ops
    }
}

/// `rpmdb_relocate` ends by pointing rpm at the relocated database: the
/// macro `%_dbpath /usr/share/rpm` in usr/lib/rpm/macros.d/macros.rpm-ostree.
pub proof fn law_rpmdb_sets_dbpath(rootfs: Seq<char>, snap: Seq<ProbeV>)
    ensures
        RpmdbRelocate.spec_plan(rootfs, snap).last() == FsOpV::WriteFile(
            seq!["usr"@, "lib"@, "rpm"@, "macros.d"@, "macros.rpm-ostree"@],
            "%_dbpath /usr/share/rpm\n"@,
            "writing usr/lib/rpm/macros.d/macros.rpm-ostree"@,
        ),
{
}

} // verus!
