//! What the transforms know of a rootfs and what they ask of it.
//!
//! A transform does not touch the filesystem itself. It names the paths it
//! needs to look at (relative to the rootfs, as lists of components); the
//! caller observes them into a [`Snapshot`]; the transform then decides, from
//! the snapshot alone, whether it is needed ([`Snapshot`] in, `bool` out) and
//! which [`FsOp`]s bring the rootfs into shape.

use vstd::prelude::*;
use vstd::string::*;

verus! {

/// A path relative to the rootfs, as its components.
pub type RelPath = Vec<String>;

/// The mathematical value of a relative path.
pub type PathV = Seq<Seq<char>>;

/// What `symlink_metadata` (which does not follow symlinks) says a path is.
#[derive(PartialEq, Eq, Structural, Clone, Copy, Debug)]
pub enum NodeKind {
    Dir,
    File,
    Symlink,
}

/// One item produced while reading a directory.
pub enum DirItem {
    /// The entry itself could not be read.
    Unreadable,
    /// An entry: its name, and its file type (`None` when that could not be
    /// read). The file type does not follow symlinks.
    Entry(String, Option<NodeKind>),
}

pub enum DirItemV {
    Unreadable,
    Entry(Seq<char>, Option<NodeKind>),
}

impl DeepView for DirItem {
    type V = DirItemV;

    open spec fn deep_view(&self) -> DirItemV {
        match self {
            DirItem::Unreadable => DirItemV::Unreadable,
            DirItem::Entry(name, kind) => DirItemV::Entry(name@, *kind),
        }
    }
}

/// The listing of a directory.
pub enum Listing {
    /// The path is not a directory (following symlinks), so it was not read.
    NotRead,
    /// The directory could not be opened.
    OpenFailed,
    /// The directory was opened, but reading its entries failed.
    ReadFailed,
    /// The items, in the order the directory produced them.
    Read(Vec<DirItem>),
}

pub enum ListingV {
    NotRead,
    OpenFailed,
    ReadFailed,
    Read(Seq<DirItemV>),
}

impl DeepView for Listing {
    type V = ListingV;

    open spec fn deep_view(&self) -> ListingV {
        match self {
            Listing::NotRead => ListingV::NotRead,
            Listing::OpenFailed => ListingV::OpenFailed,
            Listing::ReadFailed => ListingV::ReadFailed,
            Listing::Read(items) => ListingV::Read(items.deep_view()),
        }
    }
}

/// Everything observed of one path.
pub struct Probe {
    pub path: RelPath,
    /// `symlink_metadata`: `None` when the path is absent or unreadable.
    pub lstat: Option<NodeKind>,
    /// Whether the path exists, following symlinks.
    pub exists: bool,
    /// Whether the path is a directory, following symlinks.
    pub is_dir: bool,
    /// The target of the symlink, when the path is one and it could be read.
    pub link_target: Option<String>,
    /// The listing of the directory, when the path is one.
    pub listing: Listing,
    /// The contents of the file, when the path is a regular file (following
    /// symlinks) that could be read as text.
    pub text: Option<String>,
}

pub struct ProbeV {
    pub path: PathV,
    pub lstat: Option<NodeKind>,
    pub exists: bool,
    pub is_dir: bool,
    pub link_target: Option<Seq<char>>,
    pub listing: ListingV,
    pub text: Option<Seq<char>>,
}

impl DeepView for Probe {
    type V = ProbeV;

    open spec fn deep_view(&self) -> ProbeV {
        ProbeV {
            path: self.path.deep_view(),
            lstat: self.lstat,
            exists: self.exists,
            is_dir: self.is_dir,
            link_target: self.link_target.deep_view(),
            listing: self.listing.deep_view(),
            text: self.text.deep_view(),
        }
    }
}

/// Observations of the rootfs, one per probed path.
pub struct Snapshot {
    pub probes: Vec<Probe>,
}

impl View for Snapshot {
    type V = Seq<ProbeV>;

    open spec fn view(&self) -> Seq<ProbeV> {
        self.probes.deep_view()
    }
}

/// What a path that was never observed is taken to be: absent.
pub open spec fn absent(p: PathV) -> ProbeV {
    ProbeV {
        path: p,
        lstat: None,
        exists: false,
        is_dir: false,
        link_target: None,
        listing: ListingV::NotRead,
        text: None,
    }
}

/// The observation of `p`: the first probe of that path.
pub open spec fn info(ps: Seq<ProbeV>, p: PathV) -> ProbeV
    decreases ps.len(),
{
    if ps.len() == 0 {
        absent(p)
    } else if ps[0].path == p {
        ps[0]
    } else {
        info(ps.drop_first(), p)
    }
}

/// Whether some probe observes `p`.
pub open spec fn observed(ps: Seq<ProbeV>, p: PathV) -> bool {
    exists|i: int| 0 <= i < ps.len() && ps[i].path == p
}

/// Whether two paths are equal, component for component.
pub fn path_eq(a: &RelPath, b: &RelPath) -> (r: bool)
    ensures
        r == (a.deep_view() == b.deep_view()),
{
    if a.len() != b.len() {
        assert(a.deep_view().len() != b.deep_view().len());
        return false;
    }
    let mut i: usize = 0;
    while i < a.len()
        invariant
            a.len() == b.len(),
            i <= a.len(),
            forall|j: int| 0 <= j < i ==> a.deep_view()[j] == b.deep_view()[j],
        decreases a.len() - i,
    {
        if a[i] != b[i] {
            assert(a.deep_view()[i as int] != b.deep_view()[i as int]);
            return false;
        }
        i = i + 1;
    }
    assert(a.deep_view() =~= b.deep_view());
    true
}

proof fn lemma_info_skip(ps: Seq<ProbeV>, p: PathV, i: int)
    requires
        0 <= i < ps.len(),
        ps[i].path != p,
    ensures
        info(ps.skip(i), p) == info(ps.skip(i + 1), p),
{
    assert(ps.skip(i).drop_first() =~= ps.skip(i + 1));
}

impl Snapshot {
    /// The first probe of `p`, if any.
    pub fn get(&self, p: &RelPath) -> (r: Option<&Probe>)
        ensures
            r matches Some(pr) ==> pr.deep_view() == info(self@, p.deep_view()),
            r is None ==> info(self@, p.deep_view()) == absent(p.deep_view()),
            r is Some <==> observed(self@, p.deep_view()),
    {
        let ghost ps = self@;
        let ghost pv = p.deep_view();
        let mut i: usize = 0;
        assert(ps.skip(0) =~= ps);
        while i < self.probes.len()
            invariant
                ps == self@,
                pv == p.deep_view(),
                i <= ps.len(),
                info(ps, pv) == info(ps.skip(i as int), pv),
                forall|j: int| 0 <= j < i ==> ps[j].path != pv,
            decreases self.probes.len() - i,
        {
            if path_eq(&self.probes[i].path, p) {
                assert(ps.skip(i as int)[0] == ps[i as int]);
                return Some(&self.probes[i]);
            }
            proof {
                lemma_info_skip(ps, pv, i as int);
            }
            i = i + 1;
        }
        assert(ps.skip(i as int).len() == 0);
        None
    }

    /// The paths of `wanted` that the snapshot has not observed yet, in
    /// order: those the caller still has to probe.
    pub fn unobserved(&self, wanted: &Vec<RelPath>) -> (r: Vec<RelPath>)
        ensures
            r.deep_view() == wanted.deep_view().filter(|p: PathV| !observed(self@, p)),
    {
        let ghost wv = wanted.deep_view();
        let ghost keep = |p: PathV| !observed(self@, p);
        let mut r: Vec<RelPath> = Vec::new();
        assert(wv.take(0).filter(keep) =~= Seq::<PathV>::empty()) by {
            reveal(Seq::filter);
        }
        for i in 0..wanted.len()
            invariant
                wv == wanted.deep_view(),
                keep == (|p: PathV| !observed(self@, p)),
                r.deep_view() == wv.take(i as int).filter(keep),
        {
            let seen = self.get(&wanted[i]).is_some();
            if !seen {
                let ghost before = r.deep_view();
                r.push(copy_path(&wanted[i]));
                assert(r.deep_view() =~= before.push(wv[i as int]));
            }
            proof {
                reveal(Seq::filter);
                assert(wv.take(i + 1).drop_last() =~= wv.take(i as int));
                assert(wv.take(i + 1).last() == wv[i as int]);
            }
        }
        assert(wv.take(wanted.len() as int) =~= wv);
        r
    }

    /// `symlink_metadata` of `p`.
    pub fn lstat_at(&self, p: &RelPath) -> (r: Option<NodeKind>)
        ensures
            r == info(self@, p.deep_view()).lstat,
    {
        match self.get(p) {
            Some(pr) => pr.lstat,
            None => None,
        }
    }

    /// Whether `p` exists, following symlinks.
    pub fn exists_at(&self, p: &RelPath) -> (r: bool)
        ensures
            r == info(self@, p.deep_view()).exists,
    {
        match self.get(p) {
            Some(pr) => pr.exists,
            None => false,
        }
    }

    /// The text of the file at `p`, when it was read.
    pub fn text_at(&self, p: &RelPath) -> (r: Option<String>)
        ensures
            r.deep_view() == info(self@, p.deep_view()).text,
    {
        match self.get(p) {
            Some(pr) => match &pr.text {
                Some(t) => Some(t.clone()),
                None => None,
            },
            None => None,
        }
    }

    /// Whether `p` is a directory, following symlinks.
    pub fn is_dir_at(&self, p: &RelPath) -> (r: bool)
        ensures
            r == info(self@, p.deep_view()).is_dir,
    {
        match self.get(p) {
            Some(pr) => pr.is_dir,
            None => false,
        }
    }
}

/// One filesystem operation on the rootfs, by paths relative to it. Each
/// carries the message that reports its failure.
pub enum FsOp {
    /// Create a directory and its missing ancestors.
    CreateDirAll(RelPath, String),
    /// Write a file with the given contents.
    WriteFile(RelPath, String, String),
    /// Read a file as text and write it to the second path (the messages of
    /// a failed read and of a failed write).
    CopyFile(RelPath, RelPath, String, String),
    /// Remove a file or a symlink.
    RemoveFile(RelPath, String),
    /// Remove a file or a symlink when, at that moment, the path exists
    /// (following symlinks); nothing otherwise.
    RemoveFileIfExists(RelPath, String),
    /// Remove a directory and everything below it.
    RemoveDirAll(RelPath, String),
    /// Remove what is at the path when the operation runs: a directory
    /// (not a symlink to one) with everything below it, anything else as
    /// a file.
    RemovePath(RelPath, String),
    /// Create a symlink at the path, pointing to the target text.
    Symlink(String, RelPath, String),
    /// Rename within the rootfs.
    Rename(RelPath, RelPath, String),
    /// Copy a tree, preserving attributes (`cp -a`): the messages of a copy
    /// that could not be started and of one that exited with a failure.
    CopyPreserving(RelPath, RelPath, String, String),
    /// Run the chroot finalisation sequence.
    RunChrootOperations,
    /// Stop with this error.
    Fail(String),
}

pub enum FsOpV {
    CreateDirAll(PathV, Seq<char>),
    WriteFile(PathV, Seq<char>, Seq<char>),
    CopyFile(PathV, PathV, Seq<char>, Seq<char>),
    RemoveFile(PathV, Seq<char>),
    RemoveFileIfExists(PathV, Seq<char>),
    RemoveDirAll(PathV, Seq<char>),
    RemovePath(PathV, Seq<char>),
    Symlink(Seq<char>, PathV, Seq<char>),
    Rename(PathV, PathV, Seq<char>),
    CopyPreserving(PathV, PathV, Seq<char>, Seq<char>),
    RunChrootOperations,
    Fail(Seq<char>),
}

impl DeepView for FsOp {
    type V = FsOpV;

    open spec fn deep_view(&self) -> FsOpV {
        match self {
            FsOp::CreateDirAll(p, m) => FsOpV::CreateDirAll(p.deep_view(), m@),
            FsOp::WriteFile(p, c, m) => FsOpV::WriteFile(p.deep_view(), c@, m@),
            FsOp::CopyFile(a, b, mr, mw) => FsOpV::CopyFile(a.deep_view(), b.deep_view(), mr@, mw@),
            FsOp::RemoveFile(p, m) => FsOpV::RemoveFile(p.deep_view(), m@),
            FsOp::RemoveFileIfExists(p, m) => FsOpV::RemoveFileIfExists(p.deep_view(), m@),
            FsOp::RemoveDirAll(p, m) => FsOpV::RemoveDirAll(p.deep_view(), m@),
            FsOp::RemovePath(p, m) => FsOpV::RemovePath(p.deep_view(), m@),
            FsOp::Symlink(t, p, m) => FsOpV::Symlink(t@, p.deep_view(), m@),
            FsOp::Rename(a, b, m) => FsOpV::Rename(a.deep_view(), b.deep_view(), m@),
            FsOp::CopyPreserving(a, b, ms, mf) => FsOpV::CopyPreserving(
                a.deep_view(),
                b.deep_view(),
                ms@,
                mf@,
            ),
            FsOp::RunChrootOperations => FsOpV::RunChrootOperations,
            FsOp::Fail(m) => FsOpV::Fail(m@),
        }
    }
}

/// Append `op` to a plan.
pub fn push_op(ops: &mut Vec<FsOp>, op: FsOp)
    ensures
        final(ops).deep_view() == old(ops).deep_view().push(op.deep_view()),
{
    let ghost before = ops.deep_view();
    ops.push(op);
    assert(ops.deep_view() =~= before.push(op.deep_view()));
}

/// An owned copy of a string slice.
pub fn owned(s: &str) -> (r: String)
    ensures
        r@ == s@,
{
    String::from_str(s)
}

/// `a` followed by `b`.
pub fn concat(a: &str, b: &str) -> (r: String)
    ensures
        r@ == a@ + b@,
{
    let mut r = String::from_str(a);
    r.append(b);
    r
}

/// A one-component path.
pub fn rel1(a: &str) -> (r: RelPath)
    ensures
        r.deep_view() == seq![a@],
{
    let mut r: Vec<String> = Vec::new();
    r.push(owned(a));
    assert(r.deep_view() =~= seq![a@]);
    r
}

/// A two-component path.
pub fn rel2(a: &str, b: &str) -> (r: RelPath)
    ensures
        r.deep_view() == seq![a@, b@],
{
    let mut r: Vec<String> = Vec::new();
    r.push(owned(a));
    r.push(owned(b));
    assert(r.deep_view() =~= seq![a@, b@]);
    r
}

/// A three-component path.
pub fn rel3(a: &str, b: &str, c: &str) -> (r: RelPath)
    ensures
        r.deep_view() == seq![a@, b@, c@],
{
    let mut r: Vec<String> = Vec::new();
    r.push(owned(a));
    r.push(owned(b));
    r.push(owned(c));
    assert(r.deep_view() =~= seq![a@, b@, c@]);
    r
}

/// A four-component path.
pub fn rel4(a: &str, b: &str, c: &str, d: &str) -> (r: RelPath)
    ensures
        r.deep_view() == seq![a@, b@, c@, d@],
{
    let mut r: Vec<String> = Vec::new();
    r.push(owned(a));
    r.push(owned(b));
    r.push(owned(c));
    r.push(owned(d));
    assert(r.deep_view() =~= seq![a@, b@, c@, d@]);
    r
}

/// A copy of a path.
pub fn copy_path(p: &RelPath) -> (r: RelPath)
    ensures
        r.deep_view() == p.deep_view(),
{
    let mut r: Vec<String> = Vec::new();
    for i in 0..p.len()
        invariant
            r.deep_view() == p.deep_view().take(i as int),
    {
        let ghost before = r.deep_view();
        r.push(p[i].clone());
        assert(r.deep_view() =~= before.push(p.deep_view()[i as int]));
        assert(r.deep_view() =~= p.deep_view().take(i + 1));
    }
    assert(p.deep_view().take(p.len() as int) =~= p.deep_view());
    r
}

/// The path `p` with one more component, `name`.
pub fn child(p: &RelPath, name: &String) -> (r: RelPath)
    ensures
        r.deep_view() == p.deep_view().push(name@),
{
    let mut r = copy_path(p);
    let ghost before = r.deep_view();
    r.push(name.clone());
    assert(r.deep_view() =~= before.push(name@));
    r
}

/// The components of a path joined by `/`.
pub open spec fn path_text(p: PathV) -> Seq<char>
    decreases p.len(),
{
    if p.len() == 0 {
        Seq::empty()
    } else if p.len() == 1 {
        p[0]
    } else {
        path_text(p.drop_last()) + seq!['/'] + p.last()
    }
}

/// The text of a relative path, components joined by `/`.
pub fn path_string(p: &RelPath) -> (r: String)
    ensures
        r@ == path_text(p.deep_view()),
{
    let mut r = String::new();
    for i in 0..p.len()
        invariant
            r@ == path_text(p.deep_view().take(i as int)),
    {
        let ghost pv = p.deep_view();
        assert(pv.take(i + 1).drop_last() =~= pv.take(i as int));
        if i > 0 {
            r.append("/");
            proof {
                reveal_strlit("/");
            }
        }
        r.append(p[i].as_str());
        assert(r@ =~= path_text(pv.take(i + 1)));
    }
    assert(p.deep_view().take(p.len() as int) =~= p.deep_view());
    r
}

} // verus!

verus! {

/// The path without its last component.
pub fn parent_path(p: &RelPath) -> (r: RelPath)
    requires
        p.len() > 0,
    ensures
        r.deep_view() == p.deep_view().drop_last(),
{
    let mut r: Vec<String> = Vec::new();
    let n = p.len() - 1;
    for i in 0..n
        invariant
            n == p.len() - 1,
            r.deep_view() == p.deep_view().take(i as int),
    {
        let ghost before = r.deep_view();
        r.push(p[i].clone());
        assert(r.deep_view() =~= before.push(p.deep_view()[i as int]));
        assert(r.deep_view() =~= p.deep_view().take(i + 1));
    }
    assert(p.deep_view().take(n as int) =~= p.deep_view().drop_last());
    r
}

/// Append a path to a list of paths.
pub fn push_path(ps: &mut Vec<RelPath>, p: RelPath)
    ensures
        final(ps).deep_view() == old(ps).deep_view().push(p.deep_view()),
{
    let ghost before = ps.deep_view();
    ps.push(p);
    assert(ps.deep_view() =~= before.push(p.deep_view()));
}

} // verus!

verus! {

/// Whether some item of a listing could not be read.
pub open spec fn has_unreadable(items: Seq<DirItemV>) -> bool {
    exists|i: int| 0 <= i < items.len() && items[i] is Unreadable
}

pub proof fn lemma_has_unreadable_push(items: Seq<DirItemV>, i: int)
    requires
        0 <= i < items.len(),
    ensures
        has_unreadable(items.take(i + 1)) == (has_unreadable(items.take(i))
            || items[i] is Unreadable),
{
    let a = items.take(i + 1);
    let b = items.take(i);
    if has_unreadable(a) {
        let k = choose|k: int| 0 <= k < a.len() && a[k] is Unreadable;
        if k < i {
            assert(b[k] is Unreadable);
        }
    }
    if has_unreadable(b) {
        let k = choose|k: int| 0 <= k < b.len() && b[k] is Unreadable;
        assert(a[k] is Unreadable);
    }
    if items[i] is Unreadable {
        assert(a[i] is Unreadable);
    }
}

} // verus!

verus! {

/// Append one component to a path.
pub fn push_component(p: &mut RelPath, name: &str)
    ensures
        final(p).deep_view() == old(p).deep_view().push(name@),
{
    let ghost before = p.deep_view();
    p.push(owned(name));
    assert(p.deep_view() =~= before.push(name@));
}

} // verus!
