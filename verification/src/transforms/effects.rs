//! What the planned operations do to a rootfs, on a model of it, and what
//! the transforms' checks find once their operations have been carried out.
//!
//! The model maps each path (relative to the rootfs, reached without
//! passing through a symlink) to its node; the rootfs itself, the empty
//! path, is a directory. It is strict: an operation it cannot explain
//! without following a symlink, or one that would replace an existing
//! entry, fails in it.

use vstd::prelude::*;

use super::cleanup::{
    clear_all_ops, clear_dir_ops, clear_dirs, clear_item_ops, clear_items, has_stop, rpmdb_dirs,
    shm_name, stale_ops, stops_clearing, wal_name, PostCleanup,
};
use super::boot_relocate::{
    abs_boot, boot_dir, boot_item_ops, boot_moves, ostree_boot_dir, BootRelocate,
};
use super::ostree_config::{prepare_root_conf, OstreeConfig};
use super::passwd::{usr_lib_passwd, PasswdGenerate};
use super::rpmdb::{
    dest_db, dest_dir, macros_dir, macros_file, move_ops, rename_item_ops, renames, rpmdb_src,
    sysimage_rpm, var_lib_rpm, var_link_ops, var_linked, rpm_link_target, RpmdbRelocate,
};
use super::symlinks::{
    check_links, link_ops, links_plan, ostree_link, ostree_ops, sysroot_dir, toplevel_links,
    ToplevelSymlinks,
};
use super::Transform;
use crate::pathtext::same_path;
use crate::rootfs::{
    has_unreadable, info, path_text, DirItemV, FsOpV, ListingV, NodeKind, PathV, ProbeV,
};

verus! {

/// A node of the model.
pub enum ModelNode {
    Dir,
    File(Seq<char>),
    Link(Seq<char>),
}

/// A rootfs: the node at each path.
pub type ModelFs = Map<PathV, ModelNode>;

pub open spec fn node_kind(n: ModelNode) -> NodeKind {
    match n {
        ModelNode::Dir => NodeKind::Dir,
        ModelNode::File(_) => NodeKind::File,
        ModelNode::Link(_) => NodeKind::Symlink,
    }
}

/// Whether `q` is `p` or lies below it.
pub open spec fn within(q: PathV, p: PathV) -> bool {
    p.is_prefix_of(q)
}

pub open spec fn is_model_dir(m: ModelFs, p: PathV) -> bool {
    p.len() == 0 || (m.contains_key(p) && m[p] is Dir)
}

pub open spec fn parent_is_dir(m: ModelFs, p: PathV) -> bool {
    p.len() > 0 && is_model_dir(m, p.drop_last())
}

/// `m` without `p` and everything below it.
pub open spec fn without_tree(m: ModelFs, p: PathV) -> ModelFs {
    Map::new(|q: PathV| m.contains_key(q) && !within(q, p), |q: PathV| m[q])
}

/// Whether every existing ancestor of `p` (and `p`) is a directory.
pub open spec fn dirs_ok(m: ModelFs, p: PathV) -> bool {
    forall|q: PathV| q.len() >= 1 && within(p, q) && #[trigger] m.contains_key(q) ==> m[q] is Dir
}

/// `m` with `p` and its missing ancestors created as directories.
pub open spec fn make_dirs(m: ModelFs, p: PathV) -> ModelFs {
    Map::new(
        |q: PathV| m.contains_key(q) || (q.len() >= 1 && within(p, q)),
        |q: PathV|
            if m.contains_key(q) {
                m[q]
            } else {
                ModelNode::Dir
            },
    )
}

/// `m` with the tree at `b` replaced by a copy of the tree at `a`.
pub open spec fn copy_into(m: ModelFs, a: PathV, b: PathV) -> ModelFs {
    Map::new(
        |q: PathV|
            (m.contains_key(q) && !within(q, b)) || (within(q, b) && m.contains_key(
                a + q.skip(b.len() as int),
            )),
        |q: PathV|
            if within(q, b) {
                m[a + q.skip(b.len() as int)]
            } else {
                m[q]
            },
    )
}

pub open spec fn write_effect(m: ModelFs, p: PathV, c: Seq<char>) -> Option<ModelFs> {
    if parent_is_dir(m, p) && !(m.contains_key(p) && !(m[p] is File)) {
        Some(m.insert(p, ModelNode::File(c)))
    } else {
        None
    }
}

/// Whether the tree at `a` can be moved or copied to the free place `b`.
pub open spec fn movable(m: ModelFs, a: PathV, b: PathV) -> bool {
    &&& a.len() > 0
    &&& m.contains_key(a)
    &&& parent_is_dir(m, b)
    &&& !m.contains_key(b)
    &&& !within(b, a)
    &&& !within(a, b)
}

/// The rootfs after one operation; `None` when it fails.
pub open spec fn op_effect(m: ModelFs, op: FsOpV) -> Option<ModelFs> {
    match op {
        FsOpV::CreateDirAll(p, _) => if dirs_ok(m, p) {
            Some(make_dirs(m, p))
        } else {
            None
        },
        FsOpV::WriteFile(p, c, _) => write_effect(m, p, c),
        FsOpV::CopyFile(a, b, _, _) => if m.contains_key(a) && m[a] is File {
            write_effect(m, b, m[a]->File_0)
        } else {
            None
        },
        FsOpV::RemoveFile(p, _) => if m.contains_key(p) && !(m[p] is Dir) {
            Some(m.remove(p))
        } else {
            None
        },
        FsOpV::RemoveFileIfExists(p, _) => if !m.contains_key(p) {
            Some(m)
        } else if m[p] is File {
            Some(m.remove(p))
        } else {
            None
        },
        FsOpV::RemoveDirAll(p, _) => if m.contains_key(p) && m[p] is Dir {
            Some(without_tree(m, p))
        } else {
            None
        },
        FsOpV::RemovePath(p, _) => if !m.contains_key(p) {
            None
        } else if m[p] is Dir {
            Some(without_tree(m, p))
        } else {
            Some(m.remove(p))
        },
        FsOpV::Symlink(t, p, _) => if parent_is_dir(m, p) && !m.contains_key(p) {
            Some(m.insert(p, ModelNode::Link(t)))
        } else {
            None
        },
        FsOpV::Rename(a, b, _) => if movable(m, a, b) {
            Some(without_tree(copy_into(m, a, b), a))
        } else {
            None
        },
        FsOpV::CopyPreserving(a, b, _, _) => if movable(m, a, b) {
            Some(copy_into(m, a, b))
        } else {
            None
        },
        FsOpV::RunChrootOperations => None,
        FsOpV::Fail(_) => None,
    }
}

/// The rootfs after the operations, in order; `None` when one fails.
pub open spec fn run_ops(m: ModelFs, ops: Seq<FsOpV>) -> Option<ModelFs>
    decreases ops.len(),
{
    if ops.len() == 0 {
        Some(m)
    } else {
        match op_effect(m, ops[0]) {
            None => None,
            Some(m2) => run_ops(m2, ops.drop_first()),
        }
    }
}

/// Whether the operation may change the entry at `q`.
pub open spec fn touches(op: FsOpV, q: PathV) -> bool {
    match op {
        FsOpV::CreateDirAll(p, _) => within(p, q),
        FsOpV::WriteFile(p, _, _) => q == p,
        FsOpV::CopyFile(_, b, _, _) => q == b,
        FsOpV::RemoveFile(p, _) => q == p,
        FsOpV::RemoveFileIfExists(p, _) => q == p,
        FsOpV::RemoveDirAll(p, _) => within(q, p),
        FsOpV::RemovePath(p, _) => within(q, p),
        FsOpV::Symlink(_, p, _) => q == p,
        FsOpV::Rename(a, b, _) => within(q, a) || within(q, b),
        FsOpV::CopyPreserving(_, b, _, _) => within(q, b),
        FsOpV::RunChrootOperations => false,
        FsOpV::Fail(_) => false,
    }
}

/// The entry at `q` is the same in both.
pub open spec fn same_at(m: ModelFs, m2: ModelFs, q: PathV) -> bool {
    &&& m2.contains_key(q) == m.contains_key(q)
    &&& m.contains_key(q) ==> m2[q] == m[q]
}

proof fn lemma_op_frame(m: ModelFs, op: FsOpV, q: PathV)
    requires
        op_effect(m, op) is Some,
        !touches(op, q),
    ensures
        same_at(m, op_effect(m, op)->0, q),
{
    let m2 = op_effect(m, op)->0;
    match op {
        FsOpV::CreateDirAll(p, _) => {},
        FsOpV::RemoveDirAll(p, _) => {},
        FsOpV::RemovePath(p, _) => {},
        FsOpV::Rename(a, b, _) => {
            let c = copy_into(m, a, b);
            assert(same_at(m, c, q));
        },
        FsOpV::CopyPreserving(a, b, _, _) => {},
        _ => {},
    }
}

/// The entries that no operation touches are kept.
pub proof fn lemma_run_frame(m: ModelFs, ops: Seq<FsOpV>, q: PathV)
    requires
        run_ops(m, ops) is Some,
        forall|i: int| 0 <= i < ops.len() ==> !touches(#[trigger] ops[i], q),
    ensures
        same_at(m, run_ops(m, ops)->0, q),
    decreases ops.len(),
{
    if ops.len() > 0 {
        lemma_op_frame(m, ops[0], q);
        let m1 = op_effect(m, ops[0])->0;
        assert forall|i: int| 0 <= i < ops.drop_first().len() implies !touches(
            #[trigger] ops.drop_first()[i],
            q,
        ) by {
            assert(ops.drop_first()[i] == ops[i + 1]);
        }
        lemma_run_frame(m1, ops.drop_first(), q);
    }
}

/// Running two lists of operations one after the other.
pub proof fn lemma_run_append(m: ModelFs, a: Seq<FsOpV>, b: Seq<FsOpV>)
    ensures
        run_ops(m, a + b) == (match run_ops(m, a) {
            Some(x) => run_ops(x, b),
            None => None,
        }),
    decreases a.len(),
{
    if a.len() > 0 {
        assert((a + b).drop_first() =~= a.drop_first() + b);
        assert((a + b)[0] == a[0]);
        match op_effect(m, a[0]) {
            Some(m1) => lemma_run_append(m1, a.drop_first(), b),
            None => {},
        }
    } else {
        assert(a + b =~= b);
    }
}

/// A listing that names every child of `p` in `m` once, with its kind.
pub open spec fn lists_children(l: ListingV, m: ModelFs, p: PathV) -> bool {
    match l {
        ListingV::Read(items) => {
            &&& forall|i: int|
                #![trigger items[i]]
                0 <= i < items.len() ==> (items[i] matches DirItemV::Entry(n, Some(k)) && m.contains_key(
                    p.push(n),
                ) && node_kind(m[p.push(n)]) == k)
            &&& forall|c: Seq<char>|
                #[trigger] m.contains_key(p.push(c)) ==> exists|i: int|
                    #![trigger items[i]]
                    0 <= i < items.len() && (items[i] matches DirItemV::Entry(n, _) && n == c)
            &&& forall|i: int, j: int|
                0 <= i < items.len() && 0 <= j < items.len() && i != j ==> (#[trigger] items[i])->Entry_0
                    != (#[trigger] items[j])->Entry_0
        },
        _ => false,
    }
}

/// Whether the observation `pr` of `p` is what the model shows.
pub open spec fn agrees(pr: ProbeV, m: ModelFs, p: PathV) -> bool {
    if m.contains_key(p) {
        &&& pr.lstat == Some(node_kind(m[p]))
        &&& match m[p] {
            ModelNode::Dir => pr.exists && pr.is_dir && lists_children(pr.listing, m, p) && pr.text is None,
            ModelNode::File(c) => pr.exists && !pr.is_dir && pr.text == Some(c),
            ModelNode::Link(t) => pr.link_target == Some(t),
        }
    } else {
        &&& pr.lstat is None
        &&& !pr.exists
        &&& !pr.is_dir
        &&& pr.text is None
    }
}

/// Whether the snapshot observes the paths `ps` as the model shows them.
pub open spec fn observes(snap: Seq<ProbeV>, m: ModelFs, ps: Seq<PathV>) -> bool {
    forall|i: int| 0 <= i < ps.len() ==> agrees(#[trigger] info(snap, ps[i]), m, ps[i])
}

/// The entry at `q` after the first operations, when the rest do not
/// touch it.
proof fn lemma_kept_after(m: ModelFs, ops: Seq<FsOpV>, k: int, q: PathV)
    requires
        0 <= k <= ops.len(),
        run_ops(m, ops) is Some,
        forall|i: int| k <= i < ops.len() ==> !touches(#[trigger] ops[i], q),
    ensures
        run_ops(m, ops.take(k)) is Some,
        same_at(run_ops(m, ops.take(k))->0, run_ops(m, ops)->0, q),
{
    assert(ops =~= ops.take(k) + ops.skip(k));
    lemma_run_append(m, ops.take(k), ops.skip(k));
    let mk = run_ops(m, ops.take(k))->0;
    assert forall|i: int| 0 <= i < ops.skip(k).len() implies !touches(#[trigger] ops.skip(k)[i], q) by {
        assert(ops.skip(k)[i] == ops[k + i]);
    }
    lemma_run_frame(mk, ops.skip(k), q);
}

/// Once the operations of `ostree_config` have been carried out, its
/// check finds the rootfs configured.
pub proof fn law_ostree_config_done_after_apply(
    rootfs: Seq<char>,
    snap: Seq<ProbeV>,
    m: ModelFs,
    m2: ModelFs,
    snap2: Seq<ProbeV>,
)
    requires
        run_ops(m, OstreeConfig.spec_plan(rootfs, snap)) == Some(m2),
        observes(snap2, m2, OstreeConfig.spec_probes(snap2)),
    ensures
        OstreeConfig.spec_check(snap2) == Ok::<bool, Seq<char>>(true),
{
    let plan = OstreeConfig.spec_plan(rootfs, snap);
    let q = prepare_root_conf();
    reveal_strlit("ostree");
    reveal_strlit("kernel");
    reveal_strlit("install.conf");
    reveal_strlit("install.conf.d");
    reveal_strlit("prepare-root.conf");
    assert forall|i: int| 2 <= i < plan.len() implies !touches(#[trigger] plan[i], q) by {
        assert(q[2][0] != "kernel"@[0]);
        if i == 3 || i == 5 {
            assert(q != plan[i]->WriteFile_0);
        }
    }
    lemma_kept_after(m, plan, 2, q);
    assert(plan.take(2).drop_first() =~= seq![plan[1]]);
    reveal_with_fuel(run_ops, 3);
    assert(run_ops(m, plan.take(2))->0.contains_key(q));
    assert(agrees(info(snap2, OstreeConfig.spec_probes(snap2)[0]), m2, q));
}

/// Once the operations of `passwd_generate` have been carried out, its
/// check finds /usr/lib/passwd in place.
pub proof fn law_passwd_done_after_apply(
    rootfs: Seq<char>,
    snap: Seq<ProbeV>,
    m: ModelFs,
    m2: ModelFs,
    snap2: Seq<ProbeV>,
)
    requires
        run_ops(m, PasswdGenerate.spec_plan(rootfs, snap)) == Some(m2),
        observes(snap2, m2, PasswdGenerate.spec_probes(snap2)),
    ensures
        PasswdGenerate.spec_check(snap2) == Ok::<bool, Seq<char>>(true),
{
    let plan = PasswdGenerate.spec_plan(rootfs, snap);
    let q = usr_lib_passwd();
    reveal_strlit("passwd");
    reveal_strlit("group");
    assert forall|i: int| 2 <= i < plan.len() implies !touches(#[trigger] plan[i], q) by {
        assert(q[2].len() != "group"@.len());
        assert(q != plan[i]->CopyFile_1);
    }
    lemma_kept_after(m, plan, 2, q);
    assert(plan.take(2).drop_first() =~= seq![plan[1]]);
    reveal_with_fuel(run_ops, 3);
    assert(run_ops(m, plan.take(2))->0.contains_key(q));
    assert(agrees(info(snap2, PasswdGenerate.spec_probes(snap2)[0]), m2, q));
}

/// The last operation acts on the rootfs the others left.
pub(crate) proof fn lemma_run_last(m: ModelFs, ops: Seq<FsOpV>)
    requires
        ops.len() > 0,
    ensures
        run_ops(m, ops) == (match run_ops(m, ops.drop_last()) {
            Some(x) => op_effect(x, ops.last()),
            None => None,
        }),
{
    assert(ops =~= ops.drop_last() + seq![ops.last()]);
    lemma_run_append(m, ops.drop_last(), seq![ops.last()]);
    reveal_with_fuel(run_ops, 2);
    assert(seq![ops.last()].drop_first() =~= Seq::<FsOpV>::empty());
}

/// Links that the operations for one another leave alone: none lies
/// within another, nor is an ancestor of another's parent.
pub open spec fn independent_links(ls: Seq<(PathV, Seq<char>)>) -> bool {
    &&& forall|i: int| 0 <= i < ls.len() ==> (#[trigger] ls[i]).0.len() > 0
    &&& forall|i: int, j: int|
        0 <= i < ls.len() && 0 <= j < ls.len() && i != j ==> !within(
            (#[trigger] ls[i]).0,
            (#[trigger] ls[j]).0,
        ) && !within(ls[j].0.drop_last(), ls[i].0)
}

proof fn lemma_link_ops_frame(snap: Seq<ProbeV>, link: PathV, target: Seq<char>, q: PathV)
    requires
        link.len() > 0,
        !within(q, link),
        !within(link.drop_last(), q),
    ensures
        forall|i: int|
            0 <= i < link_ops(snap, link, target).len() ==> !touches(
                #[trigger] link_ops(snap, link, target)[i],
                q,
            ),
{
    if q.len() >= 1 && within(link.drop_last(), q) {
        assert(false);
    }
}

proof fn lemma_links_plan(
    snap: Seq<ProbeV>,
    ls: Seq<(PathV, Seq<char>)>,
    m: ModelFs,
)
    requires
        run_ops(m, links_plan(snap, ls)) is Some,
        independent_links(ls),
    ensures
        forall|j: int|
            0 <= j < ls.len() ==> run_ops(m, links_plan(snap, ls))->0.contains_key(
                (#[trigger] ls[j]).0,
            ) && run_ops(m, links_plan(snap, ls))->0[ls[j].0] == ModelNode::Link(ls[j].1),
    decreases ls.len(),
{
    if ls.len() > 0 {
        let init = ls.drop_last();
        let link = ls.last().0;
        let target = ls.last().1;
        let lo = link_ops(snap, link, target);
        assert(links_plan(snap, ls) == links_plan(snap, init) + lo);
        lemma_run_append(m, links_plan(snap, init), lo);
        let mi = run_ops(m, links_plan(snap, init))->0;
        assert forall|i: int| 0 <= i < init.len() implies (#[trigger] init[i]).0.len() > 0 by {
            assert(init[i] == ls[i]);
        }
        assert forall|i: int, j: int|
            0 <= i < init.len() && 0 <= j < init.len() && i != j implies !within(
                (#[trigger] init[i]).0,
                (#[trigger] init[j]).0,
            ) && !within(init[j].0.drop_last(), init[i].0) by {
            assert(init[i] == ls[i] && init[j] == ls[j]);
        }
        lemma_links_plan(snap, init, m);
        let m2 = run_ops(mi, lo)->0;
        lemma_run_last(mi, lo);
        assert forall|j: int| 0 <= j < ls.len() implies m2.contains_key((#[trigger] ls[j]).0)
            && m2[ls[j].0] == ModelNode::Link(ls[j].1) by {
            if j < ls.len() - 1 {
                assert(init[j] == ls[j]);
                lemma_link_ops_frame(snap, link, target, ls[j].0);
                lemma_run_frame(mi, lo, ls[j].0);
            }
        }
    }
}

proof fn lemma_toplevel_links_independent()
    ensures
        independent_links(toplevel_links()),
        forall|i: int|
            0 <= i < toplevel_links().len() ==> !within(sysroot_dir(), (#[trigger] toplevel_links()[i]).0)
                && !within(toplevel_links()[i].0.drop_last(), sysroot_dir()) && !within(
                toplevel_links()[i].0,
                ostree_link(),
            ) && toplevel_links()[i].0 != ostree_link(),
{
    reveal_strlit("home");
    reveal_strlit("root");
    reveal_strlit("opt");
    reveal_strlit("srv");
    reveal_strlit("mnt");
    reveal_strlit("media");
    reveal_strlit("usr");
    reveal_strlit("local");
    reveal_strlit("sysroot");
    reveal_strlit("ostree");
    let ls = toplevel_links();
    let first = |i: int| ls[i].0[0][0];
    assert(first(0) == 'h' && first(1) == 'r' && first(2) == 'o' && first(3) == 's');
    assert(first(4) == 'm' && first(5) == 'm' && first(6) == 'u');
    assert(ls[4].0[0][1] == 'n' && ls[5].0[0][1] == 'e');
    assert(ls[2].0[0][1] == 'p' && ls[3].0[0][1] == 'r');
    assert("sysroot"@[1] == 'y' && "ostree"@[1] == 's');
    assert forall|i: int, j: int|
        0 <= i < ls.len() && 0 <= j < ls.len() && i != j implies !within(
            (#[trigger] ls[i]).0,
            (#[trigger] ls[j]).0,
        ) && !within(ls[j].0.drop_last(), ls[i].0) by {
        if within(ls[i].0, ls[j].0) {
            assert(ls[i].0[0] == ls[j].0[0]);
            assert(ls[i].0[0][0] == ls[j].0[0][0]);
            if ls[i].0[0].len() > 1 {
                assert(ls[i].0[0][1] == ls[j].0[0][1]);
            }
        }
        if within(ls[j].0.drop_last(), ls[i].0) {
            assert(ls[i].0.len() <= ls[j].0.len() - 1);
            assert(ls[i].0[0] == ls[j].0[0]);
            assert(ls[i].0[0][0] == ls[j].0[0][0]);
        }
    }
    assert forall|i: int| 0 <= i < ls.len() implies !within(sysroot_dir(), (#[trigger] ls[i]).0)
        && !within(ls[i].0.drop_last(), sysroot_dir()) && !within(ls[i].0, ostree_link())
        && ls[i].0 != ostree_link() by {
        if within(sysroot_dir(), ls[i].0) {
            assert(ls[i].0[0] == sysroot_dir()[0]);
            assert(ls[i].0[0][0] == 's');
            assert(ls[i].0[0][1] == 'y');
        }
        if within(ls[i].0, ostree_link()) || ls[i].0 == ostree_link() {
            assert(ls[i].0[0] == ostree_link()[0]);
            assert(ls[i].0[0][0] == 'o');
            assert(ls[i].0[0][1] == 's');
        }
    }
}

proof fn lemma_check_links_ok(snap: Seq<ProbeV>, ls: Seq<(PathV, Seq<char>)>)
    requires
        forall|j: int|
            0 <= j < ls.len() ==> info(snap, (#[trigger] ls[j]).0).lstat == Some(NodeKind::Symlink)
                && info(snap, ls[j].0).link_target == Some(ls[j].1),
    ensures
        check_links(snap, ls) == Ok::<bool, Seq<char>>(true),
    decreases ls.len(),
{
    if ls.len() > 0 {
        assert forall|j: int| 0 <= j < ls.drop_first().len() implies info(
            snap,
            (#[trigger] ls.drop_first()[j]).0,
        ).lstat == Some(NodeKind::Symlink) && info(snap, ls.drop_first()[j].0).link_target == Some(
            ls.drop_first()[j].1,
        ) by {
            assert(ls.drop_first()[j] == ls[j + 1]);
        }
        lemma_check_links_ok(snap, ls.drop_first());
    }
}

/// Once the operations of `toplevel_symlinks` have been carried out, its
/// check finds every toplevel link, /sysroot and the ostree link in place.
pub proof fn law_symlinks_done_after_apply(
    rootfs: Seq<char>,
    snap: Seq<ProbeV>,
    m: ModelFs,
    m2: ModelFs,
    snap2: Seq<ProbeV>,
)
    requires
        run_ops(m, ToplevelSymlinks.spec_plan(rootfs, snap)) == Some(m2),
        observes(snap2, m2, ToplevelSymlinks.spec_probes(snap2)),
    ensures
        ToplevelSymlinks.spec_check(snap2) == Ok::<bool, Seq<char>>(true),
{
    let ls = toplevel_links();
    let first = seq![FsOpV::CreateDirAll(sysroot_dir(), "creating sysroot"@)];
    let lp = links_plan(snap, ls);
    let oo = ostree_ops(snap);
    assert(ToplevelSymlinks.spec_plan(rootfs, snap) == first + lp + oo);
    lemma_run_append(m, first + lp, oo);
    lemma_run_append(m, first, lp);
    reveal_with_fuel(run_ops, 2);
    assert(first.drop_first() =~= Seq::<FsOpV>::empty());
    let m1 = run_ops(m, first)->0;
    assert(m1.contains_key(sysroot_dir()) && m1[sysroot_dir()] is Dir);
    let ml = run_ops(m1, lp)->0;
    lemma_toplevel_links_independent();
    lemma_links_plan(snap, ls, m1);
    // sysroot stays a directory.
    assert forall|i: int| 0 <= i < lp.len() implies !touches(#[trigger] lp[i], sysroot_dir()) by {
        lemma_links_plan_touches(snap, ls, sysroot_dir(), i);
    }
    lemma_run_frame(m1, lp, sysroot_dir());
    reveal_strlit("sysroot");
    reveal_strlit("ostree");
    assert(sysroot_dir()[0][1] != ostree_link()[0][1]);
    lemma_run_frame(ml, oo, sysroot_dir());
    // The links stay links.
    assert forall|j: int| 0 <= j < ls.len() implies m2.contains_key((#[trigger] ls[j]).0)
        && m2[ls[j].0] == ModelNode::Link(ls[j].1) by {
        lemma_run_frame(ml, oo, ls[j].0);
    }
    // The ostree link is made last.
    lemma_run_last(ml, oo);
    assert(m2.contains_key(ostree_link()) && m2[ostree_link()] is Link);
    let ps = ToplevelSymlinks.spec_probes(snap2);
    assert forall|j: int| 0 <= j < ls.len() implies info(snap2, (#[trigger] ls[j]).0).lstat == Some(
        NodeKind::Symlink,
    ) && info(snap2, ls[j].0).link_target == Some(ls[j].1) by {
        assert(ps[j] == ls[j].0);
        assert(agrees(info(snap2, ps[j]), m2, ps[j]));
    }
    lemma_check_links_ok(snap2, ls);
    assert(ps[7] == sysroot_dir());
    assert(agrees(info(snap2, ps[7]), m2, ps[7]));
    assert(ps[8] == ostree_link());
    assert(agrees(info(snap2, ps[8]), m2, ps[8]));
}

/// Once the operations of `toplevel_symlinks` have been carried out, home,
/// root, opt, srv, mnt, media and usr/local are symlinks to var/home,
/// var/roothome, var/opt, var/srv, var/mnt, run/media and ../var/usrlocal,
/// ostree is a symlink to sysroot/ostree, and sysroot is a directory.
pub proof fn law_toplevel_links_targets(
    rootfs: Seq<char>,
    snap: Seq<ProbeV>,
    m: ModelFs,
    m2: ModelFs,
    link: PathV,
    target: Seq<char>,
)
    requires
        run_ops(m, ToplevelSymlinks.spec_plan(rootfs, snap)) == Some(m2),
        (link, target) == (seq!["home"@], "var/home"@) || (link, target) == (seq!["root"@], "var/roothome"@)
            || (link, target) == (seq!["opt"@], "var/opt"@) || (link, target) == (seq!["srv"@], "var/srv"@)
            || (link, target) == (seq!["mnt"@], "var/mnt"@) || (link, target) == (seq!["media"@], "run/media"@)
            || (link, target) == (seq!["usr"@, "local"@], "../var/usrlocal"@) || (link, target) == (seq![
            "ostree"@,
        ], "sysroot/ostree"@),
    ensures
        m2.contains_key(link),
        m2[link] == ModelNode::Link(target),
        m2.contains_key(seq!["sysroot"@]),
        m2[seq!["sysroot"@]] is Dir,
{
    let ls = toplevel_links();
    let first = seq![FsOpV::CreateDirAll(sysroot_dir(), "creating sysroot"@)];
    let lp = links_plan(snap, ls);
    let oo = ostree_ops(snap);
    assert(ToplevelSymlinks.spec_plan(rootfs, snap) == first + lp + oo);
    lemma_run_append(m, first + lp, oo);
    lemma_run_append(m, first, lp);
    reveal_with_fuel(run_ops, 2);
    assert(first.drop_first() =~= Seq::<FsOpV>::empty());
    let m1 = run_ops(m, first)->0;
    let ml = run_ops(m1, lp)->0;
    lemma_toplevel_links_independent();
    lemma_links_plan(snap, ls, m1);
    assert forall|i: int| 0 <= i < lp.len() implies !touches(#[trigger] lp[i], sysroot_dir()) by {
        lemma_links_plan_touches(snap, ls, sysroot_dir(), i);
    }
    lemma_run_frame(m1, lp, sysroot_dir());
    reveal_strlit("sysroot");
    reveal_strlit("ostree");
    assert(sysroot_dir()[0][1] != ostree_link()[0][1]);
    lemma_run_frame(ml, oo, sysroot_dir());
    assert forall|j: int| 0 <= j < ls.len() implies m2.contains_key((#[trigger] ls[j]).0)
        && m2[ls[j].0] == ModelNode::Link(ls[j].1) by {
        lemma_run_frame(ml, oo, ls[j].0);
    }
    lemma_run_last(ml, oo);
    if link == seq!["ostree"@] {
        assert(ostree_link() =~= link);
    } else {
        let j: int = if link == seq!["home"@] {
            0
        } else if link == seq!["root"@] {
            1
        } else if link == seq!["opt"@] {
            2
        } else if link == seq!["srv"@] {
            3
        } else if link == seq!["mnt"@] {
            4
        } else if link == seq!["media"@] {
            5
        } else {
            6
        };
        assert(ls[j] == (link, target));
    }
}

/// No operation for the links touches a path that lies within none of the
/// links and is an ancestor of none of their parents.
proof fn lemma_links_plan_touches(snap: Seq<ProbeV>, ls: Seq<(PathV, Seq<char>)>, q: PathV, i: int)
    requires
        0 <= i < links_plan(snap, ls).len(),
        forall|j: int| 0 <= j < ls.len() ==> (#[trigger] ls[j]).0.len() > 0,
        forall|j: int|
            0 <= j < ls.len() ==> !within(q, (#[trigger] ls[j]).0) && !within(ls[j].0.drop_last(), q),
    ensures
        !touches(links_plan(snap, ls)[i], q),
    decreases ls.len(),
{
    if ls.len() > 0 {
        let init = ls.drop_last();
        let lo = link_ops(snap, ls.last().0, ls.last().1);
        let lp0 = links_plan(snap, init);
        assert(links_plan(snap, ls) == lp0 + lo);
        if i < lp0.len() {
            assert forall|j: int| 0 <= j < init.len() implies (#[trigger] init[j]).0.len() > 0 by {
                assert(init[j] == ls[j]);
            }
            assert forall|j: int| 0 <= j < init.len() implies !within(q, (#[trigger] init[j]).0)
                && !within(init[j].0.drop_last(), q) by {
                assert(init[j] == ls[j]);
            }
            lemma_links_plan_touches(snap, init, q, i);
        } else {
            assert(ls.last() == ls[ls.len() - 1]);
            lemma_link_ops_frame(snap, ls.last().0, ls.last().1, q);
            assert(links_plan(snap, ls)[i] == lo[i - lp0.len()]);
        }
    }
}

/// Every entry sits in a directory.
pub open spec fn model_wf(m: ModelFs) -> bool {
    forall|q: PathV| #[trigger] m.contains_key(q) ==> q.len() > 0 && is_model_dir(m, q.drop_last())
}

/// Whether an item of a listing is named `c`.
pub open spec fn names(items: Seq<DirItemV>, c: Seq<char>) -> bool {
    exists|i: int| 0 <= i < items.len() && (#[trigger] items[i] matches DirItemV::Entry(n, _) && n == c)
}

proof fn lemma_boot_item(rootfs: Seq<char>, item: DirItemV, m: ModelFs)
    requires
        run_ops(m, boot_item_ops(rootfs, item)) is Some,
        item matches DirItemV::Entry(_, Some(_)),
    ensures
        same_at(m, run_ops(m, boot_item_ops(rootfs, item))->0, boot_dir()),
        same_at(m, run_ops(m, boot_item_ops(rootfs, item))->0, ostree_boot_dir()),
        forall|c: Seq<char>|
            #[trigger] run_ops(m, boot_item_ops(rootfs, item))->0.contains_key(boot_dir().push(c))
                ==> m.contains_key(boot_dir().push(c)) && item->Entry_0 != c,
{
    reveal_strlit("boot");
    reveal_strlit("usr");
    let ops = boot_item_ops(rootfs, item);
    let n = item->Entry_0;
    assert(boot_dir()[0][0] != ostree_boot_dir()[0][0]);
    assert forall|i: int| 0 <= i < ops.len() implies !touches(#[trigger] ops[i], boot_dir()) && !touches(
        ops[i],
        ostree_boot_dir(),
    ) by {}
    lemma_run_frame(m, ops, boot_dir());
    lemma_run_frame(m, ops, ostree_boot_dir());
    let r = run_ops(m, ops)->0;
    assert forall|c: Seq<char>| #[trigger] r.contains_key(boot_dir().push(c)) implies m.contains_key(
        boot_dir().push(c),
    ) && n != c by {
        let q = boot_dir().push(c);
        if n != c {
            assert(q[1] != boot_dir().push(n)[1]);
            assert forall|i: int| 0 <= i < ops.len() implies !touches(#[trigger] ops[i], q) by {}
            lemma_run_frame(m, ops, q);
        } else {
            lemma_run_last(m, ops);
            assert(ops.drop_last() =~= seq![ops[0]]);
            reveal_with_fuel(run_ops, 2);
        }
    }
}

proof fn lemma_boot_moves(rootfs: Seq<char>, items: Seq<DirItemV>, m: ModelFs)
    requires
        run_ops(m, boot_moves(rootfs, items)) is Some,
        forall|i: int| 0 <= i < items.len() ==> #[trigger] items[i] matches DirItemV::Entry(_, Some(_)),
    ensures
        same_at(m, run_ops(m, boot_moves(rootfs, items))->0, boot_dir()),
        same_at(m, run_ops(m, boot_moves(rootfs, items))->0, ostree_boot_dir()),
        forall|c: Seq<char>|
            #[trigger] run_ops(m, boot_moves(rootfs, items))->0.contains_key(boot_dir().push(c))
                ==> m.contains_key(boot_dir().push(c)) && !names(items, c),
    decreases items.len(),
{
    if items.len() > 0 {
        let init = items.drop_last();
        assert(!has_unreadable(init)) by {
            if has_unreadable(init) {
                let k = choose|k: int| 0 <= k < init.len() && init[k] is Unreadable;
                assert(init[k] == items[k]);
            }
        }
        let last = items.last();
        assert(last == items[items.len() - 1]);
        let a = boot_moves(rootfs, init);
        let b = boot_item_ops(rootfs, last);
        assert(boot_moves(rootfs, items) == a + b);
        lemma_run_append(m, a, b);
        assert forall|i: int| 0 <= i < init.len() implies #[trigger] init[i] matches DirItemV::Entry(
            _,
            Some(_),
        ) by {
            assert(init[i] == items[i]);
        }
        lemma_boot_moves(rootfs, init, m);
        let m0 = run_ops(m, a)->0;
        lemma_boot_item(rootfs, last, m0);
        let r = run_ops(m0, b)->0;
        assert forall|c: Seq<char>| #[trigger] r.contains_key(boot_dir().push(c)) implies m.contains_key(
            boot_dir().push(c),
        ) && !names(items, c) by {
            assert(m0.contains_key(boot_dir().push(c)));
            if names(items, c) {
                let i = choose|i: int|
                    0 <= i < items.len() && (#[trigger] items[i] matches DirItemV::Entry(n, _) && n
                        == c);
                if i < init.len() {
                    assert(init[i] == items[i]);
                    assert(names(init, c));
                }
            }
        }
    }
}

/// Once the operations of `boot_relocate` have been carried out, its check
/// finds the ostree boot directory in place and /boot empty, unless /boot
/// was a symlink (whose listing is that of another directory).
pub proof fn law_boot_relocate_done_after_apply(
    rootfs: Seq<char>,
    snap: Seq<ProbeV>,
    m: ModelFs,
    m2: ModelFs,
    snap2: Seq<ProbeV>,
)
    requires
        model_wf(m),
        !(m.contains_key(boot_dir()) && m[boot_dir()] is Link),
        observes(snap, m, BootRelocate.spec_probes(snap)),
        run_ops(m, BootRelocate.spec_plan(rootfs, snap)) == Some(m2),
        observes(snap2, m2, BootRelocate.spec_probes(snap2)),
    ensures
        BootRelocate.spec_check(snap2) == Ok::<bool, Seq<char>>(true),
{
    reveal_strlit("boot");
    reveal_strlit("usr");
    let ob = ostree_boot_dir();
    let bd = boot_dir();
    assert(bd[0][0] != ob[0][0]);
    let ps = BootRelocate.spec_probes(snap);
    assert(ps[1] == bd);
    assert(agrees(info(snap, ps[1]), m, bd));
    let boot = info(snap, bd);
    let first = seq![FsOpV::CreateDirAll(ob, "creating usr/lib/ostree-boot"@)];
    let moves: Seq<FsOpV> = if boot.is_dir {
        match boot.listing {
            ListingV::Read(items) => boot_moves(rootfs, items),
            _ => seq![FsOpV::Fail("reading "@ + abs_boot(rootfs))],
        }
    } else {
        seq![]
    };
    let recreate: Seq<FsOpV> = if !boot.exists {
        seq![FsOpV::CreateDirAll(bd, "creating boot"@)]
    } else {
        seq![]
    };
    assert(BootRelocate.spec_plan(rootfs, snap) == first + moves + recreate);
    lemma_run_append(m, first + moves, recreate);
    lemma_run_append(m, first, moves);
    reveal_with_fuel(run_ops, 2);
    assert(first.drop_first() =~= Seq::<FsOpV>::empty());
    let m1 = run_ops(m, first)->0;
    assert(m1.contains_key(ob) && m1[ob] is Dir);
    assert forall|q: PathV| q.len() > 0 && q[0] == bd[0] implies same_at(m, m1, q) by {
        assert(!touches(first[0], q));
        lemma_op_frame(m, first[0], q);
    }
    assert(same_at(m, m1, bd));
    let mm = run_ops(m1, moves)->0;
    if m.contains_key(bd) {
        if m[bd] is Dir {
            let items = boot.listing->Read_0;
            assert(lists_children(boot.listing, m, bd));
            lemma_boot_moves(rootfs, items, m1);
            assert(recreate.len() == 0);
            assert(mm == m2);
            assert forall|c: Seq<char>| !(#[trigger] m2.contains_key(bd.push(c))) by {
                if m2.contains_key(bd.push(c)) {
                    assert(m1.contains_key(bd.push(c)));
                    assert(bd.push(c)[0] == bd[0]);
                    assert(same_at(m, m1, bd.push(c)));
                    assert(m.contains_key(bd.push(c)));
                    let i = choose|i: int|
                        0 <= i < items.len() && (#[trigger] items[i] matches DirItemV::Entry(n, _) && n
                            == c);
                    assert(names(items, c));
                }
            }
            let ps2 = BootRelocate.spec_probes(snap2);
            assert(agrees(info(snap2, ps2[0]), m2, ob));
            assert(agrees(info(snap2, ps2[1]), m2, bd));
            let l2 = info(snap2, bd).listing;
            assert(lists_children(l2, m2, bd));
            let items2 = l2->Read_0;
            if items2.len() > 0 {
                assert(items2[0] matches DirItemV::Entry(n, Some(k)) && m2.contains_key(bd.push(n)));
            }
        } else {
            assert(moves.len() == 0 && recreate.len() == 0);
            assert(m2 == m1);
            let ps2 = BootRelocate.spec_probes(snap2);
            assert(agrees(info(snap2, ps2[0]), m2, ob));
            assert(agrees(info(snap2, ps2[1]), m2, bd));
        }
    } else {
        assert(moves.len() == 0);
        assert(mm == m1);
        assert(!m1.contains_key(bd));
        assert forall|c: Seq<char>| !(#[trigger] m1.contains_key(bd.push(c))) by {
            assert(bd.push(c)[0] == bd[0]);
            assert(same_at(m, m1, bd.push(c)));
            if m.contains_key(bd.push(c)) {
                assert(bd.push(c).drop_last() =~= bd);
            }
        }
        assert(!touches(recreate[0], ob));
        lemma_op_frame(m1, recreate[0], ob);
        assert(m2.contains_key(bd) && m2[bd] is Dir);
        assert forall|c: Seq<char>| !(#[trigger] m2.contains_key(bd.push(c))) by {
            assert(!touches(recreate[0], bd.push(c)));
            lemma_op_frame(m1, recreate[0], bd.push(c));
        }
        let ps2 = BootRelocate.spec_probes(snap2);
        assert(agrees(info(snap2, ps2[0]), m2, ob));
        assert(agrees(info(snap2, ps2[1]), m2, bd));
        let l2 = info(snap2, bd).listing;
        let items2 = l2->Read_0;
        if items2.len() > 0 {
            assert(items2[0] matches DirItemV::Entry(n, Some(k)) && m2.contains_key(bd.push(n)));
        }
    }
}

proof fn lemma_renames_shape(src: PathV, items: Seq<DirItemV>)
    requires
        forall|i: int| 0 <= i < items.len() ==> #[trigger] items[i] matches DirItemV::Entry(_, _),
    ensures
        renames(src, items).len() == items.len(),
        forall|i: int|
            0 <= i < items.len() ==> (#[trigger] renames(src, items)[i] matches FsOpV::Rename(a, b, _) && a
                == src.push(items[i]->Entry_0) && b == dest_dir().push(items[i]->Entry_0)),
    decreases items.len(),
{
    if items.len() > 0 {
        let init = items.drop_last();
        assert forall|i: int| 0 <= i < init.len() implies #[trigger] init[i] matches DirItemV::Entry(
            _,
            _,
        ) by {
            assert(init[i] == items[i]);
        }
        assert(!has_unreadable(init)) by {
            if has_unreadable(init) {
                let k = choose|k: int| 0 <= k < init.len() && init[k] is Unreadable;
                assert(init[k] == items[k]);
            }
        }
        lemma_renames_shape(src, init);
        assert(items.last() == items[items.len() - 1]);
        let r = renames(src, items);
        assert(r == renames(src, init) + rename_item_ops(src, items.last()));
        assert forall|i: int| 0 <= i < items.len() implies (#[trigger] r[i] matches FsOpV::Rename(
            a,
            b,
            _,
        ) && a == src.push(items[i]->Entry_0) && b == dest_dir().push(items[i]->Entry_0)) by {
            if i < init.len() {
                assert(init[i] == items[i]);
                assert(r[i] == renames(src, init)[i]);
            }
        }
    }
}

pub(crate) proof fn lemma_not_prefix(p: PathV, q: PathV, i: int)
    requires
        0 <= i < p.len(),
        i < q.len(),
        p[i] != q[i],
    ensures
        !within(q, p),
        !within(p, q),
{
}

/// Whether the directory the rpmdb is taken from holds `rpmdb.sqlite`,
/// and not as a symlink.
pub open spec fn src_holds_sqlite(snap: Seq<ProbeV>) -> bool {
    let src = info(snap, rpmdb_src(snap));
    &&& src.lstat == Some(NodeKind::Dir)
    &&& src.listing matches ListingV::Read(items) && exists|i: int|
        0 <= i < items.len() && (#[trigger] items[i] matches DirItemV::Entry(n, Some(k)) && n
            == "rpmdb.sqlite"@ && k != NodeKind::Symlink)
}

/// Once the operations of `rpmdb_relocate` have been carried out, its
/// check finds the database in /usr/share/rpm, when the directory it was
/// moved from held `rpmdb.sqlite` (the file the check looks for).
pub proof fn law_rpmdb_done_after_apply(
    rootfs: Seq<char>,
    snap: Seq<ProbeV>,
    m: ModelFs,
    m2: ModelFs,
    snap2: Seq<ProbeV>,
)
    requires
        observes(snap, m, RpmdbRelocate.spec_probes(snap)),
        src_holds_sqlite(snap),
        run_ops(m, RpmdbRelocate.spec_plan(rootfs, snap)) == Some(m2),
        observes(snap2, m2, RpmdbRelocate.spec_probes(snap2)),
    ensures
        RpmdbRelocate.spec_check(snap2) == Ok::<bool, Seq<char>>(true),
{
    reveal_strlit("usr");
    reveal_strlit("var");
    reveal_strlit("lib");
    reveal_strlit("share");
    reveal_strlit("sysimage");
    reveal_strlit("rpm");
    reveal_strlit("rpmdb.sqlite");
    reveal_strlit("macros.d");
    reveal_strlit("macros.rpm-ostree");
    assert("usr"@[0] == 'u' && "var"@[0] == 'v' && "lib"@[0] == 'l' && "share"@[0] == 's');
    let c = "rpmdb.sqlite"@;
    let src = rpmdb_src(snap);
    let db = dest_db();
    let ps = RpmdbRelocate.spec_probes(snap);
    assert(src == ps[0] || src == ps[1]);
    assert(agrees(info(snap, ps[0]), m, ps[0]));
    assert(agrees(info(snap, ps[1]), m, ps[1]));
    let pr = info(snap, src);
    assert(m.contains_key(src) && m[src] is Dir);
    let items = pr.listing->Read_0;
    assert(lists_children(pr.listing, m, src));
    lemma_renames_shape(src, items);
    let r = renames(src, items);
    let k = choose|k: int|
        0 <= k < items.len() && (#[trigger] items[k] matches DirItemV::Entry(n, Some(kd)) && n == c
            && kd != NodeKind::Symlink);
    let a = src.push(c);
    assert(m.contains_key(a) && !(m[a] is Link));
    let first = seq![FsOpV::CreateDirAll(dest_dir(), "creating usr/share/rpm"@)];
    let mv = move_ops(snap, src);
    assert(mv == r + seq![FsOpV::RemoveDirAll(src, "removing "@ + path_text(src))]);
    let vl = var_link_ops(snap, src);
    let tail = seq![
        FsOpV::CreateDirAll(macros_dir(), "creating usr/lib/rpm/macros.d"@),
        FsOpV::WriteFile(
            macros_file(),
            "%_dbpath /usr/share/rpm\n"@,
            "writing usr/lib/rpm/macros.d/macros.rpm-ostree"@,
        ),
    ];
    let plan = RpmdbRelocate.spec_plan(rootfs, snap);
    assert(plan == first + mv + vl + tail);
    assert(plan =~= first + r + seq![mv.last()] + vl + tail);
    let n0 = 1 + r.len();
    // What comes after the move of rpmdb.sqlite leaves the database alone.
    let v = var_lib_rpm();
    assert(src == v || src == sysimage_rpm());
    assert forall|i: int| k + 2 <= i < plan.len() implies !touches(#[trigger] plan[i], db) by {
        if i < n0 {
            let j = i - 1;
            assert(plan[i] == r[j]);
            assert(items[j] != items[k]);
            assert(items[j]->Entry_0 != c);
            let b2 = dest_dir().push(items[j]->Entry_0);
            let a2 = src.push(items[j]->Entry_0);
            lemma_not_prefix(b2, db, 3);
            if src == v {
                lemma_not_prefix(a2, db, 0);
            }
        } else if i == n0 {
            assert(plan[i] == mv.last());
            if src == v {
                lemma_not_prefix(src, db, 0);
            } else {
                lemma_not_prefix(src, db, 1);
            }
        } else if i < n0 + 1 + vl.len() {
            assert(plan[i] == vl[i - n0 - 1]);
            lemma_not_prefix(v, db, 0);
        } else {
            assert(plan[i] == tail[i - n0 - 1 - vl.len()]);
            lemma_not_prefix(db, macros_dir(), 1);
        }
    }
    lemma_kept_after(m, plan, k + 2, db);
    // What comes before it leaves rpmdb.sqlite alone.
    let pre = plan.take(k + 1);
    assert(plan.take(k + 2) =~= pre.push(r[k]));
    assert(plan.take(k + 2).drop_last() =~= pre);
    assert(plan =~= pre + plan.skip(k + 1));
    lemma_run_append(m, pre, plan.skip(k + 1));
    assert forall|i: int| 0 <= i < pre.len() implies !touches(#[trigger] pre[i], a) by {
        if i > 0 {
            let j = i - 1;
            assert(pre[i] == r[j]);
            assert(items[j] != items[k]);
            assert(items[j]->Entry_0 != c);
            let b2 = dest_dir().push(items[j]->Entry_0);
            let a2 = src.push(items[j]->Entry_0);
            lemma_not_prefix(a2, a, src.len() as int);
            if src == v {
                lemma_not_prefix(b2, a, 0);
            } else {
                lemma_not_prefix(b2, a, 1);
            }
        }
    }
    lemma_run_frame(m, pre, a);
    let x = run_ops(m, pre)->0;
    lemma_run_last(m, plan.take(k + 2));
    let mk = run_ops(m, plan.take(k + 2))->0;
    assert(a + db.skip(db.len() as int) =~= a);
    assert(mk.contains_key(db) && mk[db] == x[a]);
    let ps2 = RpmdbRelocate.spec_probes(snap2);
    assert(ps2[2] == db);
    assert(agrees(info(snap2, ps2[2]), m2, db));
}

/// Whether `q` lies strictly below `d`.
pub open spec fn below(q: PathV, d: PathV) -> bool {
    within(q, d) && q.len() > d.len()
}

proof fn lemma_clear_items(d: PathV, items: Seq<DirItemV>, m: ModelFs)
    requires
        run_ops(m, clear_items(d, items)) is Some,
        forall|i: int| 0 <= i < items.len() ==> #[trigger] items[i] matches DirItemV::Entry(_, Some(_)),
    ensures
        forall|q: PathV| !below(q, d) ==> #[trigger] same_at(m, run_ops(m, clear_items(d, items))->0, q),
        forall|c: Seq<char>|
            #[trigger] run_ops(m, clear_items(d, items))->0.contains_key(d.push(c)) ==> m.contains_key(
                d.push(c),
            ) && !names(items, c),
    decreases items.len(),
{
    if items.len() > 0 {
        let init = items.drop_last();
        assert(!has_stop(init)) by {
            if has_stop(init) {
                let k = choose|k: int| 0 <= k < init.len() && stops_clearing(#[trigger] init[k]);
                assert(init[k] == items[k]);
            }
        }
        let last = items.last();
        assert(last == items[items.len() - 1]);
        let a = clear_items(d, init);
        let b = clear_item_ops(d, last);
        assert(clear_items(d, items) == a + b);
        lemma_run_append(m, a, b);
        assert forall|i: int| 0 <= i < init.len() implies #[trigger] init[i] matches DirItemV::Entry(
            _,
            Some(_),
        ) by {
            assert(init[i] == items[i]);
        }
        lemma_clear_items(d, init, m);
        let m0 = run_ops(m, a)->0;
        let r = run_ops(m0, b)->0;
        let n = last->Entry_0;
        reveal_with_fuel(run_ops, 2);
        assert(b.len() == 1);
        assert(b.drop_first() =~= Seq::<FsOpV>::empty());
        assert forall|q: PathV| !below(q, d) implies #[trigger] same_at(m, r, q) by {
            assert(same_at(m, m0, q));
            assert(!touches(b[0], q));
            lemma_op_frame(m0, b[0], q);
        }
        assert forall|c: Seq<char>| #[trigger] r.contains_key(d.push(c)) implies m.contains_key(
            d.push(c),
        ) && !names(items, c) by {
            let q = d.push(c);
            if c != n {
                assert(q[d.len() as int] != d.push(n)[d.len() as int]);
                assert(!touches(b[0], q));
                lemma_op_frame(m0, b[0], q);
            }
            assert(m0.contains_key(q));
            if names(items, c) {
                let i = choose|i: int|
                    0 <= i < items.len() && (#[trigger] items[i] matches DirItemV::Entry(x, _) && x
                        == c);
                if i < init.len() {
                    assert(init[i] == items[i]);
                    assert(names(init, c));
                }
            }
        }
    }
}

proof fn lemma_clear_items_touch(d: PathV, items: Seq<DirItemV>, q: PathV)
    requires
        !below(q, d),
    ensures
        forall|i: int| 0 <= i < clear_items(d, items).len() ==> !touches(#[trigger] clear_items(d, items)[i], q),
    decreases items.len(),
{
    if items.len() > 0 {
        let init = items.drop_last();
        let last = items.last();
        lemma_clear_items_touch(d, init, q);
        let ops = clear_items(d, items);
        if !has_stop(init) {
            assert(ops == clear_items(d, init) + clear_item_ops(d, last));
            assert forall|i: int| 0 <= i < ops.len() implies !touches(#[trigger] ops[i], q) by {
                if i >= clear_items(d, init).len() {
                    assert(ops[i] == clear_item_ops(d, last)[i - clear_items(d, init).len()]);
                } else {
                    assert(ops[i] == clear_items(d, init)[i]);
                }
            }
        }
    }
}

proof fn lemma_clear_dir_frame(snap: Seq<ProbeV>, d: PathV, m: ModelFs, q: PathV)
    requires
        run_ops(m, clear_dir_ops(snap, d)) is Some,
        !below(q, d),
    ensures
        same_at(m, run_ops(m, clear_dir_ops(snap, d))->0, q),
{
    let ops = clear_dir_ops(snap, d);
    if info(snap, d).is_dir {
        match info(snap, d).listing {
            ListingV::Read(items) => {
                lemma_clear_items_touch(d, items, q);
            },
            _ => {},
        }
    }
    lemma_run_frame(m, ops, q);
}

/// Directories that are not within one another.
pub open spec fn unnested(ds: Seq<PathV>) -> bool {
    forall|i: int, j: int|
        0 <= i < ds.len() && 0 <= j < ds.len() && i != j ==> !within(#[trigger] ds[i], #[trigger] ds[j])
}

proof fn lemma_clear_all(snap: Seq<ProbeV>, ds: Seq<PathV>, m: ModelFs)
    requires
        run_ops(m, clear_all_ops(snap, ds)) is Some,
        unnested(ds),
        forall|i: int| 0 <= i < ds.len() ==> agrees(info(snap, #[trigger] ds[i]), m, ds[i]),
    ensures
        forall|q: PathV|
            (forall|i: int| 0 <= i < ds.len() ==> !below(q, #[trigger] ds[i])) ==> #[trigger] same_at(
                m,
                run_ops(m, clear_all_ops(snap, ds))->0,
                q,
            ),
        forall|i: int, c: Seq<char>|
            0 <= i < ds.len() && m.contains_key(ds[i]) && m[ds[i]] is Dir ==> !run_ops(
                m,
                clear_all_ops(snap, ds),
            )->0.contains_key(#[trigger] ds[i].push(c)),
    decreases ds.len(),
{
    if ds.len() > 0 {
        let init = ds.drop_last();
        let d = ds.last();
        assert(d == ds[ds.len() - 1]);
        let a = clear_all_ops(snap, init);
        let b = clear_dir_ops(snap, d);
        assert(clear_all_ops(snap, ds) == a + b);
        lemma_run_append(m, a, b);
        assert forall|i: int, j: int|
            0 <= i < init.len() && 0 <= j < init.len() && i != j implies !within(
                #[trigger] init[i],
                #[trigger] init[j],
            ) by {
            assert(init[i] == ds[i] && init[j] == ds[j]);
        }
        assert forall|i: int| 0 <= i < init.len() implies agrees(
            info(snap, #[trigger] init[i]),
            m,
            init[i],
        ) by {
            assert(init[i] == ds[i]);
        }
        lemma_clear_all(snap, init, m);
        let m0 = run_ops(m, a)->0;
        let r = run_ops(m0, b)->0;
        // The earlier clears left `d` and what is below it as they were.
        assert forall|q: PathV| within(q, d) implies #[trigger] same_at(m, m0, q) by {
            assert forall|i: int| 0 <= i < init.len() implies !below(q, #[trigger] init[i]) by {
                assert(init[i] == ds[i]);
                if below(q, init[i]) {
                    assert(!within(d, ds[i]));
                    assert(init[i].len() <= d.len()) by {
                        if init[i].len() > d.len() {
                            assert(!within(ds[i], d));
                            assert forall|k: int| 0 <= k < d.len() implies ds[i][k] == d[k] by {
                                assert(ds[i][k] == q[k]);
                            }
                            assert(ds[i].subrange(0, d.len() as int) =~= d);
                        }
                    }
                    assert forall|k: int| 0 <= k < init[i].len() implies d[k] == init[i][k] by {
                        assert(q[k] == init[i][k]);
                    }
                    assert(d.subrange(0, init[i].len() as int) =~= init[i]);
                }
            }
        }
        let pr = info(snap, d);
        assert(agrees(pr, m, d));
        if m.contains_key(d) && m[d] is Dir {
            assert(same_at(m, m0, d));
            let items = pr.listing->Read_0;
            assert(lists_children(pr.listing, m, d));
            assert(b == clear_items(d, items));
            lemma_clear_items(d, items, m0);
            assert forall|c: Seq<char>| !r.contains_key(#[trigger] d.push(c)) by {
                if r.contains_key(d.push(c)) {
                    assert(m0.contains_key(d.push(c)));
                    assert(same_at(m, m0, d.push(c)));
                    let i = choose|i: int|
                        0 <= i < items.len() && (#[trigger] items[i] matches DirItemV::Entry(x, _) && x
                            == c);
                    assert(names(items, c));
                }
            }
        }
        // Keys below no cleared directory are kept.
        assert forall|q: PathV|
            (forall|i: int| 0 <= i < ds.len() ==> !below(q, #[trigger] ds[i])) implies #[trigger] same_at(
            m,
            r,
            q,
        ) by {
            assert forall|i: int| 0 <= i < init.len() implies !below(q, #[trigger] init[i]) by {
                assert(init[i] == ds[i]);
            }
            assert(same_at(m, m0, q));
            assert(!below(q, ds[ds.len() - 1]));
            lemma_clear_dir_frame(snap, d, m0, q);
            assert(same_at(m0, r, q));
        }
        // The cleared directories stay empty.
        assert forall|i: int, c: Seq<char>|
            0 <= i < ds.len() && m.contains_key(ds[i]) && m[ds[i]] is Dir implies !r.contains_key(
            #[trigger] ds[i].push(c),
        ) by {
            if i < init.len() {
                assert(init[i] == ds[i]);
                assert(!m0.contains_key(init[i].push(c)));
                if below(ds[i].push(c), d) {
                    assert(!within(ds[i], d));
                    assert forall|k: int| 0 <= k < d.len() implies ds[i][k] == d[k] by {
                        assert(ds[i].push(c)[k] == d[k]);
                    }
                    assert(ds[i].subrange(0, d.len() as int) =~= d);
                }
                lemma_clear_dir_frame(snap, d, m0, ds[i].push(c));
            }
        }
    }
}

proof fn lemma_clear_dirs_unnested()
    ensures
        unnested(clear_dirs()),
{
    reveal_strlit("var");
    reveal_strlit("cache");
    reveal_strlit("tmp");
    reveal_strlit("log");
    reveal_strlit("run");
    let ds = clear_dirs();
    assert(ds[0][1][0] == 'c' && ds[1][1][0] == 't' && ds[2][1][0] == 'l');
    assert(ds[0][0][0] == 'v' && ds[3][0][0] == 'r' && ds[4][0][0] == 't');
    assert forall|i: int, j: int|
        0 <= i < ds.len() && 0 <= j < ds.len() && i != j implies !within(#[trigger] ds[i], #[trigger] ds[j]) by {
        if within(ds[i], ds[j]) {
            assert(ds[i][0] == ds[j][0]);
            assert(ds[i][0][0] == ds[j][0][0]);
            if ds[j].len() > 1 {
                assert(ds[i][1] == ds[j][1]);
                assert(ds[i][1][0] == ds[j][1][0]);
            }
        }
    }
}

proof fn lemma_stale_removed(snap: Seq<ProbeV>, d: PathV, m: ModelFs)
    requires
        info(snap, d).exists,
        run_ops(m, stale_ops(snap, d)) is Some,
    ensures
        !run_ops(m, stale_ops(snap, d))->0.contains_key(d.push(wal_name())),
        !run_ops(m, stale_ops(snap, d))->0.contains_key(d.push(shm_name())),
        forall|q: PathV|
            q != d.push(wal_name()) && q != d.push(shm_name()) ==> #[trigger] same_at(
                m,
                run_ops(m, stale_ops(snap, d))->0,
                q,
            ),
{
    reveal_strlit("rpmdb.sqlite-wal");
    reveal_strlit("rpmdb.sqlite-shm");
    let ops = stale_ops(snap, d);
    assert(wal_name()[13] != shm_name()[13]);
    assert(d.push(wal_name())[d.len() as int] != d.push(shm_name())[d.len() as int]);
    reveal_with_fuel(run_ops, 3);
    assert(ops.drop_first().drop_first() =~= Seq::<FsOpV>::empty());
    let m1 = op_effect(m, ops[0])->0;
    assert(!touches(ops[1], d.push(wal_name())));
    lemma_op_frame(m1, ops[1], d.push(wal_name()));
    assert forall|q: PathV| q != d.push(wal_name()) && q != d.push(shm_name()) implies #[trigger] same_at(
        m,
        run_ops(m, ops)->0,
        q,
    ) by {
        lemma_op_frame(m, ops[0], q);
        lemma_op_frame(m1, ops[1], q);
    }
}

/// Once the operations of `post_cleanup` have been carried out, each
/// directory it clears that was a directory is empty, and no stale rpmdb
/// WAL or SHM file is left in an rpmdb directory.
pub proof fn law_cleanup_empties(rootfs: Seq<char>, snap: Seq<ProbeV>, m: ModelFs, m2: ModelFs)
    requires
        observes(snap, m, PostCleanup.spec_probes(snap)),
        run_ops(m, PostCleanup.spec_plan(rootfs, snap)) == Some(m2),
    ensures
        forall|i: int, c: Seq<char>|
            0 <= i < clear_dirs().len() && m.contains_key(clear_dirs()[i]) && m[clear_dirs()[i]] is Dir
                ==> !m2.contains_key(#[trigger] clear_dirs()[i].push(c)),
        forall|j: int|
            0 <= j < rpmdb_dirs().len() && m.contains_key(#[trigger] rpmdb_dirs()[j])
                && m[rpmdb_dirs()[j]] is Dir ==> !m2.contains_key(rpmdb_dirs()[j].push(wal_name()))
                && !m2.contains_key(rpmdb_dirs()[j].push(shm_name())),
{
    reveal_strlit("var");
    reveal_strlit("usr");
    let cds = clear_dirs();
    let rds = rpmdb_dirs();
    let ps = PostCleanup.spec_probes(snap);
    let ca = clear_all_ops(snap, cds);
    let s0 = stale_ops(snap, rds[0]);
    let s1 = stale_ops(snap, rds[1]);
    assert(PostCleanup.spec_plan(rootfs, snap) == ca + s0 + s1);
    lemma_run_append(m, ca + s0, s1);
    lemma_run_append(m, ca, s0);
    let mc = run_ops(m, ca)->0;
    let m0 = run_ops(mc, s0)->0;
    assert forall|i: int| 0 <= i < cds.len() implies agrees(info(snap, #[trigger] cds[i]), m, cds[i]) by {
        assert(ps[i] == cds[i]);
    }
    lemma_clear_dirs_unnested();
    lemma_clear_all(snap, cds, m);
    // What the stale removals touch is deeper than anything they could undo.
    assert forall|i: int, c: Seq<char>|
        0 <= i < cds.len() && m.contains_key(cds[i]) && m[cds[i]] is Dir implies !m2.contains_key(
        #[trigger] cds[i].push(c),
    ) by {
        let q = cds[i].push(c);
        assert(q.len() <= 3);
        assert forall|k: int| 0 <= k < s0.len() implies !touches(#[trigger] s0[k], q) by {}
        assert forall|k: int| 0 <= k < s1.len() implies !touches(#[trigger] s1[k], q) by {}
        lemma_run_frame(mc, s0, q);
        lemma_run_frame(m0, s1, q);
    }
    assert(rds[0][0][0] == 'u' && rds[1][0][0] == 'v');
    assert forall|j: int|
        0 <= j < rds.len() && m.contains_key(#[trigger] rds[j]) && m[rds[j]] is Dir implies !m2.contains_key(
        rds[j].push(wal_name()),
    ) && !m2.contains_key(rds[j].push(shm_name())) by {
        assert(ps[5 + j] == rds[j]);
        assert(agrees(info(snap, ps[5 + j]), m, rds[j]));
        if j == 0 {
            lemma_stale_removed(snap, rds[0], mc);
            let w = rds[0].push(wal_name());
            let h = rds[0].push(shm_name());
            assert forall|k: int| 0 <= k < s1.len() implies !touches(#[trigger] s1[k], w) && !touches(
                s1[k],
                h,
            ) by {
                let p = s1[k]->RemoveFileIfExists_0;
                assert(p[0] == rds[1][0]);
                assert(w[0][0] != p[0][0]);
                assert(h[0][0] != p[0][0]);
            }
            lemma_run_frame(m0, s1, w);
            lemma_run_frame(m0, s1, h);
        } else {
            lemma_stale_removed(snap, rds[1], m0);
        }
    }
}

/// Whether a listing names an rpm database file: one whose name ends in
/// `.sqlite` or `.db`.
pub open spec fn lists_database(items: Seq<DirItemV>) -> bool {
    exists|i: int|
        0 <= i < items.len() && (#[trigger] items[i] matches DirItemV::Entry(n, _) && ((n.len() >= 7
            && n.subrange(n.len() - 7, n.len() as int) == ".sqlite"@) || (n.len() >= 3 && n.subrange(
            n.len() - 3,
            n.len() as int,
        ) == ".db"@)))
}

/// Whether the snapshot shows `p` as a real directory (not a symlink) that
/// holds an rpm database.
pub open spec fn database_dir(snap: Seq<ProbeV>, p: PathV) -> bool {
    &&& info(snap, p).lstat == Some(NodeKind::Dir)
    &&& info(snap, p).listing matches ListingV::Read(items) && lists_database(items)
}

/// The rpm database is moved whole: when /usr/lib/sysimage/rpm holds it
/// (or else /var/lib/rpm does) and every entry there could be read, the
/// plan first renames each entry, in order, into /usr/share/rpm, then
/// removes the emptied directory.
pub proof fn law_rpmdb_moves_every_entry(rootfs: Seq<char>, snap: Seq<ProbeV>, p: PathV, k: int)
    requires
        (p == seq!["usr"@, "lib"@, "sysimage"@, "rpm"@] && database_dir(snap, p)) || (p == seq![
            "var"@,
            "lib"@,
            "rpm"@,
        ] && database_dir(snap, p) && !database_dir(snap, seq!["usr"@, "lib"@, "sysimage"@, "rpm"@])),
        forall|i: int|
            0 <= i < info(snap, p).listing->Read_0.len() ==> #[trigger] info(
                snap,
                p,
            ).listing->Read_0[i] matches DirItemV::Entry(_, _),
        0 <= k < info(snap, p).listing->Read_0.len(),
    ensures
        ({
            let items = info(snap, p).listing->Read_0;
            let plan = RpmdbRelocate.spec_plan(rootfs, snap);
            &&& plan[1 + k] matches FsOpV::Rename(a, b, _) && a == p.push(items[k]->Entry_0) && b
                == seq!["usr"@, "share"@, "rpm"@].push(items[k]->Entry_0)
            &&& plan[1 + items.len() as int] matches FsOpV::RemoveDirAll(q, _) && q == p
        }),
{
    reveal_strlit(".sqlite");
    reveal_strlit(".db");
    let items = info(snap, p).listing->Read_0;
    let sys = seq!["usr"@, "lib"@, "sysimage"@, "rpm"@];
    assert forall|q: PathV| database_dir(snap, q) <==> super::rpmdb::usable_src(snap, q) by {
        if info(snap, q).listing is Read {
            let its = info(snap, q).listing->Read_0;
            if lists_database(its) {
                let i = choose|i: int|
                    0 <= i < its.len() && (#[trigger] its[i] matches DirItemV::Entry(n, _) && ((n.len()
                        >= 7 && n.subrange(n.len() - 7, n.len() as int) == ".sqlite"@) || (n.len() >= 3
                        && n.subrange(n.len() - 3, n.len() as int) == ".db"@)));
                assert(its[i] matches DirItemV::Entry(n, _) && super::rpmdb::is_db_name(n));
            }
            if super::rpmdb::has_db_files(info(snap, q).listing) {
                let i = choose|i: int|
                    #![trigger its[i]]
                    0 <= i < its.len() && (its[i] matches DirItemV::Entry(n, _) && super::rpmdb::is_db_name(n));
                assert(its[i] matches DirItemV::Entry(n, _) && ((n.len() >= 7 && n.subrange(
                    n.len() - 7,
                    n.len() as int,
                ) == ".sqlite"@) || (n.len() >= 3 && n.subrange(n.len() - 3, n.len() as int) == ".db"@)));
            }
        }
    }
    assert(rpmdb_src(snap) == p);
    lemma_renames_shape(p, items);
    let r = renames(p, items);
    let mv = move_ops(snap, p);
    assert(mv == r + seq![FsOpV::RemoveDirAll(p, "removing "@ + path_text(p))]);
    let first = seq![FsOpV::CreateDirAll(dest_dir(), "creating usr/share/rpm"@)];
    let plan = RpmdbRelocate.spec_plan(rootfs, snap);
    let rest = var_link_ops(snap, p) + seq![
        FsOpV::CreateDirAll(macros_dir(), "creating usr/lib/rpm/macros.d"@),
        FsOpV::WriteFile(
            macros_file(),
            "%_dbpath /usr/share/rpm\n"@,
            "writing usr/lib/rpm/macros.d/macros.rpm-ostree"@,
        ),
    ];
    assert(plan =~= first + r + seq![mv.last()] + rest);
    assert(plan[1 + k] == r[k]);
    assert(plan[1 + items.len() as int] == mv.last());
}

/// Once the operations of `post_cleanup` have been carried out, each of
/// var/cache, var/tmp, var/log, run and tmp that was a directory has no
/// entry left.
pub proof fn law_cleanup_clears_standard_dirs(
    rootfs: Seq<char>,
    snap: Seq<ProbeV>,
    m: ModelFs,
    m2: ModelFs,
    d: PathV,
    c: Seq<char>,
)
    requires
        observes(snap, m, PostCleanup.spec_probes(snap)),
        run_ops(m, PostCleanup.spec_plan(rootfs, snap)) == Some(m2),
        d == seq!["var"@, "cache"@] || d == seq!["var"@, "tmp"@] || d == seq!["var"@, "log"@] || d
            == seq!["run"@] || d == seq!["tmp"@],
        m.contains_key(d),
        m[d] is Dir,
    ensures
        !m2.contains_key(d.push(c)),
{
    law_cleanup_empties(rootfs, snap, m, m2);
    let cds = clear_dirs();
    let k: int = if d == seq!["var"@, "cache"@] {
        0
    } else if d == seq!["var"@, "tmp"@] {
        1
    } else if d == seq!["var"@, "log"@] {
        2
    } else if d == seq!["run"@] {
        3
    } else {
        4
    };
    assert(cds[k] == d);
    assert(!m2.contains_key(cds[k].push(c)));
}

/// Once the operations of `rpmdb_relocate` have been carried out,
/// /var/lib/rpm is a symlink to /usr/share/rpm (the one made, or one to
/// the same place that was there).
pub proof fn law_rpmdb_links_var_lib_rpm(
    rootfs: Seq<char>,
    snap: Seq<ProbeV>,
    m: ModelFs,
    m2: ModelFs,
)
    requires
        observes(snap, m, RpmdbRelocate.spec_probes(snap)),
        run_ops(m, RpmdbRelocate.spec_plan(rootfs, snap)) == Some(m2),
    ensures
        m2.contains_key(var_lib_rpm()),
        m2[var_lib_rpm()] matches ModelNode::Link(t) && same_path(t, rpm_link_target()),
{
    reveal_strlit("usr");
    reveal_strlit("var");
    let v = var_lib_rpm();
    let src = rpmdb_src(snap);
    let ps = RpmdbRelocate.spec_probes(snap);
    assert(agrees(info(snap, ps[0]), m, ps[0]));
    assert(agrees(info(snap, ps[1]), m, ps[1]));
    assert(src == ps[0] || src == ps[1]);
    let first = seq![FsOpV::CreateDirAll(dest_dir(), "creating usr/share/rpm"@)];
    let mv = move_ops(snap, src);
    let vl = var_link_ops(snap, src);
    let tail = seq![
        FsOpV::CreateDirAll(macros_dir(), "creating usr/lib/rpm/macros.d"@),
        FsOpV::WriteFile(
            macros_file(),
            "%_dbpath /usr/share/rpm\n"@,
            "writing usr/lib/rpm/macros.d/macros.rpm-ostree"@,
        ),
    ];
    let plan = RpmdbRelocate.spec_plan(rootfs, snap);
    assert(plan == first + mv + vl + tail);
    lemma_run_append(m, first + mv + vl, tail);
    lemma_run_append(m, first + mv, vl);
    let mb = run_ops(m, first + mv)->0;
    let ml = run_ops(mb, vl)->0;
    // The macros are written under /usr.
    assert forall|i: int| 0 <= i < tail.len() implies !touches(#[trigger] tail[i], v) by {
        if i == 0 {
            assert(v[0][0] != macros_dir()[0][0]);
            lemma_not_prefix(v, macros_dir(), 0);
        }
    }
    lemma_run_frame(ml, tail, v);
    if !var_linked(snap, src) {
        lemma_run_last(mb, vl);
    } else {
        // /var/lib/rpm was a symlink, so the database came from elsewhere
        // and nothing before touches the link.
        assert(m.contains_key(v) && m[v] is Link);
        assert(src == sysimage_rpm());
        lemma_run_append(m, first, mv);
        assert forall|i: int| 0 <= i < first.len() implies !touches(#[trigger] first[i], v) by {
            lemma_not_prefix(v, dest_dir(), 0);
        }
        let mf = run_ops(m, first)->0;
        lemma_run_frame(m, first, v);
        if info(snap, src).lstat == Some(NodeKind::Dir) {
            let items = info(snap, src).listing->Read_0;
            assert(lists_children(info(snap, src).listing, m, src));
            lemma_renames_shape(src, items);
            let r = renames(src, items);
            assert(mv =~= r + seq![FsOpV::RemoveDirAll(src, "removing "@ + path_text(src))]);
            assert forall|i: int| 0 <= i < mv.len() implies !touches(#[trigger] mv[i], v) by {
                if i < r.len() {
                    assert(mv[i] == r[i]);
                    lemma_not_prefix(src.push(items[i]->Entry_0), v, 0);
                    lemma_not_prefix(dest_dir().push(items[i]->Entry_0), v, 0);
                } else {
                    lemma_not_prefix(src, v, 0);
                }
            }
        }
        lemma_run_frame(mf, mv, v);
        assert(vl.len() == 0);
    }
}

} // verus!
