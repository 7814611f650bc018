//! Toplevel symlink creation for ostree/bootc filesystem layout.

use vstd::prelude::*;

use super::{Phase, Transform};
use crate::pathtext::{same_path, same_path_text};
use crate::rootfs::{
    concat, copy_path, info, owned, parent_path, path_string, path_text, push_op, push_path, rel1,
    rel2, FsOp, FsOpV, NodeKind, PathV, ProbeV, RelPath, Snapshot,
};

verus! {

/// Standard ostree toplevel symlinks. Converts real directories into
/// symlinks pointing at /var or /run equivalents.
#[derive(Debug)]
pub struct ToplevelSymlinks;

/// (target_link, symlink_destination)
/// The link is created AT target_link, pointing TO symlink_destination.
pub open spec fn toplevel_links() -> Seq<(PathV, Seq<char>)> {
    seq![
        (seq!["home"@], "var/home"@),
        (seq!["root"@], "var/roothome"@),
        (seq!["opt"@], "var/opt"@),
        (seq!["srv"@], "var/srv"@),
        (seq!["mnt"@], "var/mnt"@),
        (seq!["media"@], "run/media"@),
        (seq!["usr"@, "local"@], "../var/usrlocal"@),
    ]
}

pub open spec fn sysroot_dir() -> PathV {
    seq!["sysroot"@]
}

/// The `ostree` link and where it points.
pub open spec fn ostree_link() -> PathV {
    seq!["ostree"@]
}

pub open spec fn ostree_link_target() -> Seq<char> {
    "sysroot/ostree"@
}

fn push_link(v: &mut Vec<(RelPath, String)>, link: RelPath, target: &str)
    ensures
        final(v).deep_view() == old(v).deep_view().push((link.deep_view(), target@)),
{
    let ghost before = v.deep_view();
    let t = owned(target);
    v.push((link, t));
    assert(v.deep_view() =~= before.push((link.deep_view(), target@)));
}

fn toplevel_links_vec() -> (r: Vec<(RelPath, String)>)
    ensures
        r.deep_view() == toplevel_links(),
{
    let mut v: Vec<(RelPath, String)> = Vec::new();
    push_link(&mut v, rel1("home"), "var/home");
    push_link(&mut v, rel1("root"), "var/roothome");
    push_link(&mut v, rel1("opt"), "var/opt");
    push_link(&mut v, rel1("srv"), "var/srv");
    push_link(&mut v, rel1("mnt"), "var/mnt");
    push_link(&mut v, rel1("media"), "run/media");
    push_link(&mut v, rel2("usr", "local"), "../var/usrlocal");
    assert(v.deep_view() =~= toplevel_links());
    v
}

/// Walks the links in order: every one must be a symlink to its
/// destination (compared as paths).
pub open spec fn check_links(snap: Seq<ProbeV>, links: Seq<(PathV, Seq<char>)>) -> Result<
    bool,
    Seq<char>,
>
    decreases links.len(),
{
    if links.len() == 0 {
        Ok(true)
    } else {
        let link = links[0].0;
        let pr = info(snap, link);
        if pr.lstat == Some(NodeKind::Symlink) {
            match pr.link_target {
                None => Err("reading symlink "@ + path_text(link)),
                Some(actual) => if !same_path(actual, links[0].1) {
                    Ok(false)
                } else {
                    check_links(snap, links.drop_first())
                },
            }
        } else {
            Ok(false)
        }
    }
}

/// The operations that turn one path into the symlink: remove what is
/// there, make sure the parent exists, create the link.
pub open spec fn link_ops(snap: Seq<ProbeV>, link: PathV, target: Seq<char>) -> Seq<FsOpV> {
    let pr = info(snap, link);
    let is_link = pr.lstat == Some(NodeKind::Symlink);
    let removal: Seq<FsOpV> = if pr.exists && !is_link {
        if pr.is_dir {
            seq![FsOpV::RemoveDirAll(link, "removing dir "@ + path_text(link))]
        } else {
            seq![FsOpV::RemoveFile(link, "removing file "@ + path_text(link))]
        }
    } else if is_link {
        seq![FsOpV::RemoveFile(link, "removing old symlink "@ + path_text(link))]
    } else {
        seq![]
    };
    let parent: Seq<FsOpV> = if link.len() > 1 {
        seq![
            FsOpV::CreateDirAll(
                link.drop_last(),
                "creating parent "@ + path_text(link.drop_last()),
            ),
        ]
    } else {
        seq![]
    };
    removal + parent + seq![
        FsOpV::Symlink(target, link, "creating symlink "@ + path_text(link) + " -> "@ + target),
    ]
}

pub open spec fn links_plan(snap: Seq<ProbeV>, links: Seq<(PathV, Seq<char>)>) -> Seq<FsOpV>
    decreases links.len(),
{
    if links.len() == 0 {
        seq![]
    } else {
        links_plan(snap, links.drop_last()) + link_ops(snap, links.last().0, links.last().1)
    }
}

/// Replace whatever stands at `ostree` by the link to `sysroot/ostree`.
pub open spec fn ostree_ops(snap: Seq<ProbeV>) -> Seq<FsOpV> {
    let pr = info(snap, ostree_link());
    let is_link = pr.lstat == Some(NodeKind::Symlink);
    let removal: Seq<FsOpV> = if pr.exists || is_link {
        if pr.is_dir && !is_link {
            seq![FsOpV::RemoveDirAll(ostree_link(), "removing ostree"@)]
        } else {
            seq![FsOpV::RemoveFile(ostree_link(), "removing ostree"@)]
        }
    } else {
        seq![]
    };
    removal + seq![FsOpV::Symlink(ostree_link_target(), ostree_link(), "creating ostree symlink"@)]
}

pub open spec fn link_paths(links: Seq<(PathV, Seq<char>)>) -> Seq<PathV> {
    links.map_values(|l: (PathV, Seq<char>)| l.0)
}

fn link_ops_exec(snap: &Snapshot, link: &RelPath, target: &String, ops: &mut Vec<FsOp>)
    requires
        link.len() > 0,
    ensures
        final(ops).deep_view() == old(ops).deep_view() + link_ops(snap@, link.deep_view(), target@),
{
    let ghost o0 = ops.deep_view();
    let lstat = snap.lstat_at(link);
    let is_link = lstat == Some(NodeKind::Symlink);
    let exists = snap.exists_at(link);
    let is_dir = snap.is_dir_at(link);
    let text = path_string(link);
    if exists && !is_link {
        if is_dir {
            push_op(ops, FsOp::RemoveDirAll(copy_path(link), concat("removing dir ", text.as_str())));
        } else {
            push_op(ops, FsOp::RemoveFile(copy_path(link), concat("removing file ", text.as_str())));
        }
    } else if is_link {
        push_op(
            ops,
            FsOp::RemoveFile(copy_path(link), concat("removing old symlink ", text.as_str())),
        );
    }
    if link.len() > 1 {
        let parent = parent_path(link);
        let m = concat("creating parent ", path_string(&parent).as_str());
        push_op(ops, FsOp::CreateDirAll(parent, m));
    }
    let mut m = concat("creating symlink ", text.as_str());
    m.append(" -> ");
    m.append(target.as_str());
    push_op(ops, FsOp::Symlink(target.clone(), copy_path(link), m));
    assert(ops.deep_view() =~= o0 + link_ops(snap@, link.deep_view(), target@));
}

impl Transform for ToplevelSymlinks {
    open spec fn spec_name(&self) -> Seq<char> {
        "toplevel_symlinks"@
    }

    open spec fn spec_phase(&self) -> Phase {
        Phase::PreChroot
    }

    open spec fn spec_probes(&self, snap: Seq<ProbeV>) -> Seq<PathV> {
        link_paths(toplevel_links()) + seq![sysroot_dir(), ostree_link()]
    }

    open spec fn spec_check(&self, snap: Seq<ProbeV>) -> Result<bool, Seq<char>> {
        match check_links(snap, toplevel_links()) {
            Ok(true) => if !info(snap, sysroot_dir()).is_dir {
                Ok(false)
            } else if info(snap, ostree_link()).lstat != Some(NodeKind::Symlink) {
                Ok(false)
            } else {
                Ok(true)
            },
            other => other,
        }
    }

    open spec fn spec_plan(&self, rootfs: Seq<char>, snap: Seq<ProbeV>) -> Seq<FsOpV> {
        seq![FsOpV::CreateDirAll(sysroot_dir(), "creating sysroot"@)] + links_plan(
            snap,
            toplevel_links(),
        ) + ostree_ops(snap)
    }

    fn name(&self) -> (r: String) {
        owned("toplevel_symlinks")
    }

    fn phase(&self) -> (r: Phase) {
        Phase::PreChroot
    }

    fn probes(&self, snap: &Snapshot) -> (r: Vec<RelPath>) {
        let links = toplevel_links_vec();
        let mut r: Vec<RelPath> = Vec::new();
        for i in 0..links.len()
            invariant
                links.deep_view() == toplevel_links(),
                r.deep_view() == link_paths(toplevel_links()).take(i as int),
        {
            push_path(&mut r, copy_path(&links[i].0));
            assert(r.deep_view() =~= link_paths(toplevel_links()).take(i + 1));
        }
        push_path(&mut r, rel1("sysroot"));
        push_path(&mut r, rel1("ostree"));
        assert(r.deep_view() =~= self.spec_probes(snap@));
        r
    }

    fn check(&self, snap: &Snapshot) -> (r: Result<bool, String>) {
        let links = toplevel_links_vec();
        let ghost ls = toplevel_links();
        assert(ls.skip(0) =~= ls);
        for i in 0..links.len()
            invariant
                links.deep_view() == ls,
                ls == toplevel_links(),
                check_links(snap@, ls) == check_links(snap@, ls.skip(i as int)),
        {
            assert(ls.skip(i as int).drop_first() =~= ls.skip(i + 1));
            assert(ls.skip(i as int)[0] == ls[i as int]);
            let link = &links[i].0;
            let target = &links[i].1;
            if snap.lstat_at(link) == Some(NodeKind::Symlink) {
                match snap.get(link) {
                    Some(pr) => match &pr.link_target {
                        None => {
                            return Err(concat("reading symlink ", path_string(link).as_str()));
                        },
                        Some(actual) => {
                            if !same_path_text(actual.as_str(), target.as_str()) {
                                return Ok(false);
                            }
                        },
                    },
                    None => {
                        return Ok(false);
                    },
                }
            } else {
                return Ok(false);
            }
        }
        assert(ls.skip(7) =~= Seq::<(PathV, Seq<char>)>::empty());
        let sysroot = rel1("sysroot");
        if !snap.is_dir_at(&sysroot) {
            return Ok(false);
        }
        let ostree = rel1("ostree");
        if snap.lstat_at(&ostree) != Some(NodeKind::Symlink) {
            return Ok(false);
        }
        Ok(true)
    }

    fn apply(&self, rootfs: &str, snap: &Snapshot) -> (r: Vec<FsOp>) {
        let links = toplevel_links_vec();
        let ghost ls = toplevel_links();
        let mut ops: Vec<FsOp> = Vec::new();
        push_op(&mut ops, FsOp::CreateDirAll(rel1("sysroot"), owned("creating sysroot")));
        assert(ls.take(0) =~= Seq::<(PathV, Seq<char>)>::empty());
        for i in 0..links.len()
            invariant
                links.deep_view() == ls,
                ls == toplevel_links(),
                ops.deep_view() == seq![FsOpV::CreateDirAll(sysroot_dir(), "creating sysroot"@)]
                    + links_plan(snap@, ls.take(i as int)),
        {
            assert(ls.take(i + 1).drop_last() =~= ls.take(i as int));
            assert(ls[i as int].0.len() > 0);
            link_ops_exec(snap, &links[i].0, &links[i].1, &mut ops);
            assert(ops.deep_view() =~= seq![FsOpV::CreateDirAll(sysroot_dir(), "creating sysroot"@)]
                + links_plan(snap@, ls.take(i + 1)));
        }
        assert(ls.take(7) =~= ls);
        let ghost before = ops.deep_view();
        let ostree = rel1("ostree");
        let is_link = snap.lstat_at(&ostree) == Some(NodeKind::Symlink);
        if snap.exists_at(&ostree) || is_link {
            if snap.is_dir_at(&ostree) && !is_link {
                push_op(&mut ops, FsOp::RemoveDirAll(rel1("ostree"), owned("removing ostree")));
            } else {
                push_op(&mut ops, FsOp::RemoveFile(rel1("ostree"), owned("removing ostree")));
            }
        }
        push_op(
            &mut ops,
            FsOp::Symlink(owned("sysroot/ostree"), rel1("ostree"), owned("creating ostree symlink")),
        );
        assert(ops.deep_view() =~= before + ostree_ops(snap@));
        ops
    }
}

} // verus!
