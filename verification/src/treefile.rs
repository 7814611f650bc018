//! rpm-ostree treefile handling: merging of included treefiles and the
//! resolution of `include` directives.
//!
//! Loading is a conversation: the loader names the file to read next, the
//! caller reads and parses it and hands back the outcome.

use vstd::prelude::*;
use crate::pathtext::{join, join_text, path_parent, std_path_parent};

verus! {

/// Partial representation of an rpm-ostree treefile.
/// Only extracts fields needed for package resolution.
#[derive(Debug, Clone)]
pub struct Treefile {
    pub packages: Vec<String>,
    pub repos: Vec<String>,
    pub releasever: Option<String>,
    pub units: Vec<String>,
    pub recommends: Option<bool>,
    pub documentation: Option<bool>,
    pub includes: Vec<String>,
}

/// The mathematical value of a treefile.
#[verifier::ext_equal]
pub struct TreefileView {
    pub packages: Seq<Seq<char>>,
    pub repos: Seq<Seq<char>>,
    pub releasever: Option<Seq<char>>,
    pub units: Seq<Seq<char>>,
    pub recommends: Option<bool>,
    pub documentation: Option<bool>,
    pub includes: Seq<Seq<char>>,
}

impl View for Treefile {
    type V = TreefileView;

    open spec fn view(&self) -> TreefileView {
        TreefileView {
            packages: self.packages.deep_view(),
            repos: self.repos.deep_view(),
            releasever: self.releasever.deep_view(),
            units: self.units.deep_view(),
            recommends: self.recommends,
            documentation: self.documentation,
            includes: self.includes.deep_view(),
        }
    }
}

/// `target` with the items of `source` appended in order, each skipped
/// when the list already holds it (from `target`, or appended before).
pub open spec fn merge_list(target: Seq<Seq<char>>, source: Seq<Seq<char>>) -> Seq<Seq<char>>
    decreases source.len(),
{
    if source.len() == 0 {
        target
    } else {
        let r = merge_list(target, source.drop_last());
        if r.contains(source.last()) {
            r
        } else {
            r.push(source.last())
        }
    }
}

/// A scalar of the parent wins; an unset one is filled from the child.
pub open spec fn merge_scalar<T>(parent: Option<T>, child: Option<T>) -> Option<T> {
    if parent is Some {
        parent
    } else {
        child
    }
}

impl TreefileView {
    /// The treefile `self` after merging `other` into it.
    pub open spec fn merged(self, other: TreefileView) -> TreefileView {
        TreefileView {
            packages: merge_list(self.packages, other.packages),
            repos: merge_list(self.repos, other.repos),
            releasever: merge_scalar(self.releasever, other.releasever),
            units: merge_list(self.units, other.units),
            recommends: merge_scalar(self.recommends, other.recommends),
            documentation: merge_scalar(self.documentation, other.documentation),
            includes: self.includes,
        }
    }
}

impl Default for Treefile {
    fn default() -> (t: Self)
        ensures
            t@.packages.len() == 0,
            t@.repos.len() == 0,
            t@.releasever is None,
            t@.units.len() == 0,
            t@.recommends is None,
            t@.documentation is None,
            t@.includes.len() == 0,
    {
        Treefile {
            packages: Vec::new(),
            repos: Vec::new(),
            releasever: None,
            units: Vec::new(),
            recommends: None,
            documentation: None,
            includes: Vec::new(),
        }
    }
}

/// A copy of a string vector, element for element.
pub fn clone_strings(v: &Vec<String>) -> (r: Vec<String>)
    ensures
        r.deep_view() == v.deep_view(),
{
    let mut r: Vec<String> = Vec::new();
    for i in 0..v.len()
        invariant
            r.deep_view() == v.deep_view().take(i as int),
    {
        let ghost before = r.deep_view();
        r.push(v[i].clone());
        assert(r.deep_view() =~= before.push(v.deep_view()[i as int]));
        assert(r.deep_view() =~= v.deep_view().take(i + 1));
    }
    assert(v.deep_view().take(v.len() as int) =~= v.deep_view());
    r
}

/// Whether one of the first `n` items of `v` equals `x`.
fn prefix_contains(v: &Vec<String>, n: usize, x: &String) -> (r: bool)
    requires
        n <= v.len(),
    ensures
        r == v.deep_view().take(n as int).contains(x@),
{
    let mut i: usize = 0;
    while i < n
        invariant
            i <= n <= v.len(),
            forall|j: int| 0 <= j < i ==> v.deep_view()[j] != x@,
        decreases n - i,
    {
        if v[i] == *x {
            assert(v.deep_view().take(n as int)[i as int] == x@);
            return true;
        }
        i = i + 1;
    }
    assert forall|j: int| 0 <= j < n implies v.deep_view().take(n as int)[j] != x@ by {}
    false
}

/// Append items from `source` into `target`, skipping duplicates.
fn merge_dedup(target: &mut Vec<String>, source: &Vec<String>)
    ensures
        final(target).deep_view() == merge_list(old(target).deep_view(), source.deep_view()),
{
    let ghost t0 = target.deep_view();
    let ghost s = source.deep_view();
    assert(s.take(0) =~= Seq::<Seq<char>>::empty());
    for i in 0..source.len()
        invariant
            s == source.deep_view(),
            target.deep_view() == merge_list(t0, s.take(i as int)),
    {
        assert(s.take(i + 1).drop_last() =~= s.take(i as int));
        assert(s.take(i + 1).last() == s[i as int]);
        let n = target.len();
        assert(target.deep_view().take(n as int) =~= target.deep_view());
        let found = prefix_contains(target, n, &source[i]);
        if !found {
            let ghost before = target.deep_view();
            target.push(source[i].clone());
            assert(target.deep_view() =~= before.push(s[i as int]));
        }
    }
    assert(s.take(source.len() as int) =~= s);
}

impl Treefile {
    /// Merge another treefile into this one. Appends list fields with
    /// deduplication. Scalar fields from `self` take precedence (the
    /// parent treefile wins).
    pub fn merge(&mut self, other: &Treefile)
        ensures
            final(self)@ == old(self)@.merged(other@),
            old(self)@.packages.no_duplicates() ==> final(self)@.packages.no_duplicates(),
            old(self)@.repos.no_duplicates() ==> final(self)@.repos.no_duplicates(),
            old(self)@.units.no_duplicates() ==> final(self)@.units.no_duplicates(),
    {
        proof {
            if self@.packages.no_duplicates() {
                law_merge_no_duplicates(self@.packages, other@.packages);
            }
            if self@.repos.no_duplicates() {
                law_merge_no_duplicates(self@.repos, other@.repos);
            }
            if self@.units.no_duplicates() {
                law_merge_no_duplicates(self@.units, other@.units);
            }
        }
        merge_dedup(&mut self.packages, &other.packages);
        merge_dedup(&mut self.repos, &other.repos);
        merge_dedup(&mut self.units, &other.units);
        if self.releasever.is_none() {
            self.releasever = match &other.releasever {
                Some(r) => Some(r.clone()),
                None => None,
            };
        }
        if self.recommends.is_none() {
            self.recommends = other.recommends;
        }
        if self.documentation.is_none() {
            self.documentation = other.documentation;
        }
    }
}


proof fn lemma_merge_list_prefix(t: Seq<Seq<char>>, s: Seq<Seq<char>>)
    ensures
        t.is_prefix_of(merge_list(t, s)),
    decreases s.len(),
{
    if s.len() > 0 {
        lemma_merge_list_prefix(t, s.drop_last());
    }
}

/// Merging keeps the parent's list items first and in their order, and
/// each scalar the parent sets; a scalar the parent leaves unset is the
/// child's.
pub proof fn law_merge_parent_first(a: TreefileView, b: TreefileView)
    ensures
        a.packages.is_prefix_of(a.merged(b).packages),
        a.repos.is_prefix_of(a.merged(b).repos),
        a.units.is_prefix_of(a.merged(b).units),
        a.releasever is Some ==> a.merged(b).releasever == a.releasever,
        a.releasever is None ==> a.merged(b).releasever == b.releasever,
        a.recommends is Some ==> a.merged(b).recommends == a.recommends,
        a.recommends is None ==> a.merged(b).recommends == b.recommends,
        a.documentation is Some ==> a.merged(b).documentation == a.documentation,
        a.documentation is None ==> a.merged(b).documentation == b.documentation,
        a.merged(b).includes == a.includes,
{
    lemma_merge_list_prefix(a.packages, b.packages);
    lemma_merge_list_prefix(a.repos, b.repos);
    lemma_merge_list_prefix(a.units, b.units);
}

proof fn lemma_merge_list_items(t: Seq<Seq<char>>, s: Seq<Seq<char>>)
    ensures
        forall|x: Seq<char>| #[trigger] merge_list(t, s).contains(x) <==> (t.contains(x) || s.contains(x)),
    decreases s.len(),
{
    if s.len() > 0 {
        let init = s.drop_last();
        lemma_merge_list_items(t, init);
        let r = merge_list(t, init);
        assert forall|x: Seq<char>| #[trigger] merge_list(t, s).contains(x) <==> (t.contains(x)
            || s.contains(x)) by {
            if init.contains(x) {
                let i = choose|i: int| 0 <= i < init.len() && init[i] == x;
                assert(s[i] == x);
            }
            if s.contains(x) && x != s.last() {
                let i = choose|i: int| 0 <= i < s.len() && s[i] == x;
                assert(i < init.len());
                assert(init[i] == x);
            }
            if !r.contains(s.last()) {
                let m = r.push(s.last());
                assert(m[r.len() as int] == s.last());
                if m.contains(x) && x != s.last() {
                    let i = choose|i: int| 0 <= i < m.len() && m[i] == x;
                    assert(r[i] == x);
                }
                if r.contains(x) {
                    let i = choose|i: int| 0 <= i < r.len() && r[i] == x;
                    assert(m[i] == x);
                }
            }
        }
    }
}

/// A merged list holds exactly the items of the parent's and the child's.
pub proof fn law_merge_items(a: TreefileView, b: TreefileView, x: Seq<char>)
    ensures
        a.merged(b).packages.contains(x) <==> (a.packages.contains(x) || b.packages.contains(x)),
        a.merged(b).repos.contains(x) <==> (a.repos.contains(x) || b.repos.contains(x)),
        a.merged(b).units.contains(x) <==> (a.units.contains(x) || b.units.contains(x)),
{
    lemma_merge_list_items(a.packages, b.packages);
    lemma_merge_list_items(a.repos, b.repos);
    lemma_merge_list_items(a.units, b.units);
}

/// Merging a list whose every item the target already holds changes
/// nothing.
pub proof fn law_merge_nothing_new(t: Seq<Seq<char>>, s: Seq<Seq<char>>)
    requires
        forall|i: int| 0 <= i < s.len() ==> t.contains(#[trigger] s[i]),
    ensures
        merge_list(t, s) == t,
    decreases s.len(),
{
    if s.len() > 0 {
        assert forall|i: int| 0 <= i < s.drop_last().len() implies t.contains(
            #[trigger] s.drop_last()[i],
        ) by {
            assert(s.drop_last()[i] == s[i]);
        }
        law_merge_nothing_new(t, s.drop_last());
        assert(t.contains(s[s.len() - 1]));
    }
}

/// Merging the same child a second time changes nothing.
pub proof fn law_merge_idempotent(a: TreefileView, b: TreefileView)
    ensures
        a.merged(b).merged(b) == a.merged(b),
{
    let m = a.merged(b);
    lemma_merge_list_items(a.packages, b.packages);
    lemma_merge_list_items(a.repos, b.repos);
    lemma_merge_list_items(a.units, b.units);
    assert forall|i: int| 0 <= i < b.packages.len() implies m.packages.contains(
        #[trigger] b.packages[i],
    ) by {
        assert(b.packages.contains(b.packages[i]));
    }
    assert forall|i: int| 0 <= i < b.repos.len() implies m.repos.contains(#[trigger] b.repos[i]) by {
        assert(b.repos.contains(b.repos[i]));
    }
    assert forall|i: int| 0 <= i < b.units.len() implies m.units.contains(#[trigger] b.units[i]) by {
        assert(b.units.contains(b.units[i]));
    }
    law_merge_nothing_new(m.packages, b.packages);
    law_merge_nothing_new(m.repos, b.repos);
    law_merge_nothing_new(m.units, b.units);
    assert(m.merged(b) =~= m);
}

/// Merging a treefile into itself changes nothing.
pub proof fn law_merge_self(a: TreefileView)
    ensures
        a.merged(a) == a,
{
    assert forall|i: int| 0 <= i < a.packages.len() implies a.packages.contains(
        #[trigger] a.packages[i],
    ) by {}
    assert forall|i: int| 0 <= i < a.repos.len() implies a.repos.contains(#[trigger] a.repos[i]) by {}
    assert forall|i: int| 0 <= i < a.units.len() implies a.units.contains(#[trigger] a.units[i]) by {}
    law_merge_nothing_new(a.packages, a.packages);
    law_merge_nothing_new(a.repos, a.repos);
    law_merge_nothing_new(a.units, a.units);
    assert(a.merged(a) =~= a);
}

/// Merging adds no duplicate: a list without repeated items stays so,
/// whatever the child holds.
pub proof fn law_merge_no_duplicates(t: Seq<Seq<char>>, s: Seq<Seq<char>>)
    requires
        t.no_duplicates(),
    ensures
        merge_list(t, s).no_duplicates(),
    decreases s.len(),
{
    if s.len() > 0 {
        law_merge_no_duplicates(t, s.drop_last());
        let r = merge_list(t, s.drop_last());
        if !r.contains(s.last()) {
            let m = r.push(s.last());
            assert forall|i: int, j: int| 0 <= i < m.len() && 0 <= j < m.len() && i != j implies m[i]
                != m[j] by {
                if i == r.len() as int && m[i] == m[j] {
                    assert(r[j] == s.last());
                }
                if j == r.len() as int && m[i] == m[j] {
                    assert(r[i] == s.last());
                }
            }
        }
    }
}

/// A treefile under resolution: its path, the directory its includes are
/// resolved against, its contents, and how many of its includes were read.
pub struct LoadFrame {
    pub path: String,
    pub base: String,
    pub tree: Treefile,
    pub next: usize,
}

pub struct LoadFrameView {
    pub path: Seq<char>,
    pub base: Seq<char>,
    pub tree: TreefileView,
    pub next: int,
}

impl View for LoadFrame {
    type V = LoadFrameView;

    open spec fn view(&self) -> LoadFrameView {
        LoadFrameView { path: self.path@, base: self.base@, tree: self.tree@, next: self.next as int }
    }
}

/// What went wrong while loading a treefile.
#[derive(Debug, Clone, Copy, PartialEq, Eq, Structural)]
pub enum LoadErrorKind {
    /// The file could not be read.
    Read,
    /// The file could not be parsed.
    Parse,
    /// The path of the file has no parent directory.
    NoParent,
}

/// A failed load: what failed, on which file, the message of the
/// underlying failure, and the chain of included files that led there
/// (outermost first; empty for the root treefile).
pub struct LoadError {
    pub kind: LoadErrorKind,
    pub path: String,
    pub detail: String,
    pub included: Vec<String>,
}

pub struct LoadErrorView {
    pub kind: LoadErrorKind,
    pub path: Seq<char>,
    pub detail: Seq<char>,
    pub included: Seq<Seq<char>>,
}

impl View for LoadError {
    type V = LoadErrorView;

    open spec fn view(&self) -> LoadErrorView {
        LoadErrorView {
            kind: self.kind,
            path: self.path@,
            detail: self.detail@,
            included: self.included.deep_view(),
        }
    }
}

/// Why the caller could not hand back a parsed treefile, with the message
/// of the failure.
pub enum LoadFailure {
    Read(String),
    Parse(String),
}

pub enum LoadFailureView {
    Read(Seq<char>),
    Parse(Seq<char>),
}

impl View for LoadFailure {
    type V = LoadFailureView;

    open spec fn view(&self) -> LoadFailureView {
        match self {
            LoadFailure::Read(m) => LoadFailureView::Read(m@),
            LoadFailure::Parse(m) => LoadFailureView::Parse(m@),
        }
    }
}

/// What the loader asks for next.
pub enum LoadStep {
    /// Read and parse the treefile at this path, then resume.
    Read(String),
    /// The root treefile with all its includes merged in.
    Done(Treefile),
    /// Loading failed.
    Failed(LoadError),
}

pub enum LoadStepView {
    Read(Seq<char>),
    Done(TreefileView),
    Failed(LoadErrorView),
}

impl View for LoadStep {
    type V = LoadStepView;

    open spec fn view(&self) -> LoadStepView {
        match self {
            LoadStep::Read(p) => LoadStepView::Read(p@),
            LoadStep::Done(t) => LoadStepView::Done(t@),
            LoadStep::Failed(e) => LoadStepView::Failed(e@),
        }
    }
}

/// Resolves a treefile and its includes, depth first, in the order the
/// includes are listed.
pub struct TreefileLoader {
    /// The treefiles under resolution, the root first.
    pub frames: Vec<LoadFrame>,
    /// The path last asked for.
    pub pending: String,
    /// Whether the loader waits for the outcome of reading `pending`.
    pub waiting: bool,
}

pub struct LoaderView {
    pub frames: Seq<LoadFrameView>,
    pub pending: Seq<char>,
    pub waiting: bool,
}

pub open spec fn frames_view(v: Seq<LoadFrame>) -> Seq<LoadFrameView> {
    v.map_values(|f: LoadFrame| f@)
}

impl View for TreefileLoader {
    type V = LoaderView;

    open spec fn view(&self) -> LoaderView {
        LoaderView { frames: frames_view(self.frames@), pending: self.pending@, waiting: self.waiting }
    }
}

/// No frame has read more includes than it lists.
pub open spec fn frames_wf(frames: Seq<LoadFrameView>) -> bool {
    forall|i: int| 0 <= i < frames.len() ==> 0 <= #[trigger] frames[i].next <= frames[i].tree.includes.len()
}

/// The included files that lead from the root treefile to `pending`:
/// the paths of the frames below the root, then `pending` itself.
pub open spec fn include_chain(frames: Seq<LoadFrameView>, pending: Seq<char>) -> Seq<Seq<char>> {
    if frames.len() == 0 {
        Seq::empty()
    } else {
        frames.skip(1).map_values(|f: LoadFrameView| f.path).push(pending)
    }
}

/// The next request of the loader once the top frame has been pushed or
/// finished: the next include of the top frame, or, when it has none left,
/// the frame is merged into the one below it (or is the result).
pub open spec fn advanced(frames: Seq<LoadFrameView>) -> (Seq<LoadFrameView>, LoadStepView)
    decreases frames.len(),
{
    if frames.len() == 0 {
        (frames, LoadStepView::Read(Seq::empty()))
    } else {
        let top = frames.last();
        if top.next < top.tree.includes.len() {
            (
                frames.update(frames.len() - 1, LoadFrameView { next: top.next + 1, ..top }),
                LoadStepView::Read(join_text(top.base, top.tree.includes[top.next])),
            )
        } else if frames.len() == 1 {
            (Seq::empty(), LoadStepView::Done(top.tree))
        } else {
            let rest = frames.drop_last();
            let up = rest.last();
            advanced(rest.update(rest.len() - 1, LoadFrameView { tree: up.tree.merged(top.tree), ..up }))
        }
    }
}

/// The error for a failure on `pending`.
pub open spec fn load_error(
    frames: Seq<LoadFrameView>,
    pending: Seq<char>,
    kind: LoadErrorKind,
    detail: Seq<char>,
) -> LoadErrorView {
    LoadErrorView { kind, path: pending, detail, included: include_chain(frames, pending) }
}

impl LoaderView {
    /// The loader after the caller hands back the outcome of reading
    /// `pending`, and what it asks for next.
    pub open spec fn resumed(self, outcome: Result<TreefileView, LoadFailureView>) -> (LoaderView, LoadStepView) {
        match outcome {
            Err(LoadFailureView::Read(m)) => (
                LoaderView { waiting: false, ..self },
                LoadStepView::Failed(load_error(self.frames, self.pending, LoadErrorKind::Read, m)),
            ),
            Err(LoadFailureView::Parse(m)) => (
                LoaderView { waiting: false, ..self },
                LoadStepView::Failed(load_error(self.frames, self.pending, LoadErrorKind::Parse, m)),
            ),
            Ok(t) => match std_path_parent(self.pending) {
                None => (
                    LoaderView { waiting: false, ..self },
                    LoadStepView::Failed(
                        load_error(self.frames, self.pending, LoadErrorKind::NoParent, Seq::empty()),
                    ),
                ),
                Some(base) => {
                    let pushed = self.frames.push(
                        LoadFrameView { path: self.pending, base, tree: t, next: 0 },
                    );
                    let (frames, step) = advanced(pushed);
                    (
                        LoaderView {
                            frames,
                            pending: match step {
                                LoadStepView::Read(p) => p,
                                _ => self.pending,
                            },
                            waiting: step is Read,
                        },
                        step,
                    )
                },
            },
        }
    }
}

proof fn lemma_frames_view_push(v: Seq<LoadFrame>, f: LoadFrame)
    ensures
        frames_view(v.push(f)) == frames_view(v).push(f@),
{
    assert(frames_view(v.push(f)) =~= frames_view(v).push(f@));
}

proof fn lemma_frames_view_drop_last(v: Seq<LoadFrame>)
    requires
        v.len() > 0,
    ensures
        frames_view(v.drop_last()) == frames_view(v).drop_last(),
{
    assert(frames_view(v.drop_last()) =~= frames_view(v).drop_last());
}

/// Runs the loader forward from a pushed or finished top frame, as
/// [`advanced`] says.
fn advance(frames: &mut Vec<LoadFrame>) -> (r: LoadStep)
    requires
        old(frames).len() > 0,
        frames_wf(frames_view(old(frames)@)),
    ensures
        (frames_view(final(frames)@), r@) == advanced(frames_view(old(frames)@)),
        frames_wf(frames_view(final(frames)@)),
{
    loop
        invariant
            frames.len() > 0,
            frames_wf(frames_view(frames@)),
            advanced(frames_view(frames@)) == advanced(frames_view(old(frames)@)),
        decreases frames.len(),
    {
        let ghost fv = frames_view(frames@);
        let last = frames.len() - 1;
        let mut top = frames.pop().unwrap();
        proof {
            lemma_frames_view_drop_last(frames@.push(top));
            assert(frames@.push(top).drop_last() =~= frames@);
            assert(fv.last() == top@);
            assert(fv.drop_last() == frames_view(frames@));
        }
        if top.next < top.tree.includes.len() {
            let p = join(&top.base, &top.tree.includes[top.next]);
            top.next = top.next + 1;
            frames.push(top);
            proof {
                lemma_frames_view_push(frames@.drop_last(), top);
                assert(frames@.drop_last().push(top) =~= frames@);
                assert(frames_view(frames@) =~= fv.update(last as int, top@));
            }
            return LoadStep::Read(p);
        }
        if frames.len() == 0 {
            proof {
                assert(frames_view(frames@) =~= Seq::<LoadFrameView>::empty());
            }
            return LoadStep::Done(top.tree);
        }
        let mut up = frames.pop().unwrap();
        let ghost rest = fv.drop_last();
        proof {
            lemma_frames_view_drop_last(frames@.push(up));
            assert(frames@.push(up).drop_last() =~= frames@);
            assert(rest.last() == up@);
        }
        up.tree.merge(&top.tree);
        frames.push(up);
        proof {
            lemma_frames_view_push(frames@.drop_last(), up);
            assert(frames@.drop_last().push(up) =~= frames@);
            assert(frames_view(frames@) =~= rest.update(rest.len() - 1, up@));
        }
    }
}

/// Starts loading the treefile at `path` (already resolved to a canonical
/// path): the loader asks for that file first.
pub fn load(path: &str) -> (r: (TreefileLoader, LoadStep))
    ensures
        r.0@ == (LoaderView { frames: Seq::empty(), pending: path@, waiting: true }),
        r.1@ == LoadStepView::Read(path@),
{
    let loader = TreefileLoader { frames: Vec::new(), pending: path.to_string(), waiting: true };
    let step = LoadStep::Read(path.to_string());
    proof {
        assert(frames_view(loader.frames@) =~= Seq::<LoadFrameView>::empty());
    }
    (loader, step)
}

impl TreefileLoader {
    /// The paths of the frames below the root, then `pending`.
    fn chain(&self) -> (r: Vec<String>)
        ensures
            r.deep_view() == include_chain(self@.frames, self@.pending),
    {
        let mut r: Vec<String> = Vec::new();
        if self.frames.len() == 0 {
            proof {
                assert(r.deep_view() =~= include_chain(self@.frames, self@.pending));
            }
            return r;
        }
        let ghost fv = self@.frames;
        for i in 1..self.frames.len()
            invariant
                fv == frames_view(self.frames@),
                fv.len() >= 1,
                r.deep_view() =~= fv.skip(1).take(i - 1).map_values(|f: LoadFrameView| f.path),
        {
            let ghost before = r.deep_view();
            r.push(self.frames[i].path.clone());
            proof {
                assert(fv[i as int] == self.frames@[i as int]@);
                assert(r.deep_view() =~= before.push(fv[i as int].path));
                assert(fv.skip(1).take(i as int) =~= fv.skip(1).take(i - 1).push(fv[i as int]));
            }
        }
        assert(fv.skip(1).take(fv.len() - 1) =~= fv.skip(1));
        let ghost before = r.deep_view();
        r.push(self.pending.clone());
        assert(r.deep_view() =~= before.push(self.pending@));
        r
    }

    /// Hands back the outcome of reading the file last asked for, and
    /// tells what to do next.
    pub fn resume(&mut self, outcome: Result<Treefile, LoadFailure>) -> (r: LoadStep)
        requires
            old(self)@.waiting,
            frames_wf(old(self)@.frames),
        ensures
            (final(self)@, r@) == old(self)@.resumed(
                match outcome {
                    Ok(t) => Ok(t@),
                    Err(f) => Err(f@),
                },
            ),
            frames_wf(final(self)@.frames),
    {
        match outcome {
            Err(f) => {
                let included = self.chain();
                self.waiting = false;
                let (kind, detail) = match f {
                    LoadFailure::Read(m) => (LoadErrorKind::Read, m),
                    LoadFailure::Parse(m) => (LoadErrorKind::Parse, m),
                };
                LoadStep::Failed(LoadError { kind, path: self.pending.clone(), detail, included })
            },
            Ok(tree) => {
                match path_parent(&self.pending) {
                    None => {
                        let included = self.chain();
                        self.waiting = false;
                        LoadStep::Failed(
                            LoadError {
                                kind: LoadErrorKind::NoParent,
                                path: self.pending.clone(),
                                detail: String::new(),
                                included,
                            },
                        )
                    },
                    Some(base) => {
                        let frame = LoadFrame { path: self.pending.clone(), base, tree, next: 0 };
                        proof {
                            lemma_frames_view_push(self.frames@, frame);
                        }
                        self.frames.push(frame);
                        let step = advance(&mut self.frames);
                        match &step {
                            LoadStep::Read(p) => {
                                self.pending = p.clone();
                                self.waiting = true;
                            },
                            _ => {
                                self.waiting = false;
                            },
                        }
                        step
                    },
                }
            },
        }
    }
}


/// The treefile at `path` with its includes resolved, depth first, when
/// each file's contents are those `files` gives and inclusion goes at most
/// `depth` levels deep; `None` when a file is missing, a path has no parent
/// directory, or the nesting is deeper.
pub open spec fn resolved(files: Map<Seq<char>, TreefileView>, path: Seq<char>, depth: nat) -> Option<TreefileView>
    decreases depth, 0int, 0int,
{
    if depth == 0 || !files.contains_key(path) {
        None
    } else {
        match std_path_parent(path) {
            None => None,
            Some(base) => merged_includes(files, base, files[path].includes, 0, files[path], (depth - 1) as nat),
        }
    }
}

/// `acc` with the includes `incs[i..]` (relative to `base`) resolved and
/// merged in, one after the other.
pub open spec fn merged_includes(
    files: Map<Seq<char>, TreefileView>,
    base: Seq<char>,
    incs: Seq<Seq<char>>,
    i: int,
    acc: TreefileView,
    depth: nat,
) -> Option<TreefileView>
    decreases depth, 1int, incs.len() - i,
{
    if i < 0 || i >= incs.len() {
        Some(acc)
    } else {
        match resolved(files, join_text(base, incs[i]), depth) {
            None => None,
            Some(c) => merged_includes(files, base, incs, i + 1, acc.merged(c), depth),
        }
    }
}

/// How a caller answers a read from `files`: the file's contents, or a
/// failure to read a file that is not there.
pub open spec fn answer(files: Map<Seq<char>, TreefileView>, p: Seq<char>) -> Result<TreefileView, LoadFailureView> {
    if files.contains_key(p) {
        Ok(files[p])
    } else {
        Err(LoadFailureView::Read(Seq::empty()))
    }
}

/// The loader and its last request after `n` more reads answered from
/// `files` (it stops once it no longer waits).
pub open spec fn run(
    files: Map<Seq<char>, TreefileView>,
    s: (LoaderView, LoadStepView),
    n: nat,
) -> (LoaderView, LoadStepView)
    decreases n,
{
    if n == 0 || !s.0.waiting {
        s
    } else {
        run(files, s.0.resumed(answer(files, s.0.pending)), (n - 1) as nat)
    }
}

/// Whether the state `s` is the one that the pair of frames and request
/// `t` describes.
pub open spec fn settles(s: (LoaderView, LoadStepView), t: (Seq<LoadFrameView>, LoadStepView)) -> bool {
    &&& s.0.frames == t.0
    &&& s.1 == t.1
    &&& s.0.waiting == (t.1 is Read)
    &&& (t.1 is Read ==> s.0.pending == t.1->Read_0)
}

/// Where the loader goes once the treefile on top of `frames` has taken in
/// `c`: the result itself when there is no frame left.
pub open spec fn after_child(frames: Seq<LoadFrameView>, c: TreefileView) -> (Seq<LoadFrameView>, LoadStepView) {
    if frames.len() == 0 {
        (frames, LoadStepView::Done(c))
    } else {
        let up = frames.last();
        advanced(frames.update(frames.len() - 1, LoadFrameView { tree: up.tree.merged(c), ..up }))
    }
}

proof fn lemma_run_add(files: Map<Seq<char>, TreefileView>, s: (LoaderView, LoadStepView), a: nat, b: nat)
    ensures
        run(files, s, a + b) == run(files, run(files, s, a), b),
    decreases a,
{
    if a > 0 && s.0.waiting {
        lemma_run_add(files, s.0.resumed(answer(files, s.0.pending)), (a - 1) as nat, b);
        assert((a + b - 1) as nat == (a - 1) as nat + b);
    }
}

/// From a state that settles `advanced(frames.push(fr))`, where the rest of
/// `fr`'s includes resolve to `c`, the loader comes to settle
/// `after_child(frames, c)`.
proof fn lemma_finish_frame(
    files: Map<Seq<char>, TreefileView>,
    frames: Seq<LoadFrameView>,
    fr: LoadFrameView,
    s: (LoaderView, LoadStepView),
    depth: nat,
    c: TreefileView,
) -> (n: nat)
    requires
        0 <= fr.next <= fr.tree.includes.len(),
        settles(s, advanced(frames.push(fr))),
        merged_includes(files, fr.base, fr.tree.includes, fr.next, fr.tree, depth) == Some(c),
    ensures
        settles(run(files, s, n), after_child(frames, c)),
    decreases depth, fr.tree.includes.len() - fr.next,
{
    let g = frames.push(fr);
    assert(g.drop_last() =~= frames);
    assert(g.last() == fr);
    if fr.next == fr.tree.includes.len() {
        assert(c == fr.tree);
        assert(advanced(g) == after_child(frames, c));
        assert(run(files, s, 0) == s);
        0
    } else {
        let inc = fr.tree.includes[fr.next];
        let q = join_text(fr.base, inc);
        let fr1 = LoadFrameView { next: fr.next + 1, ..fr };
        let g1 = frames.push(fr1);
        assert(g.update(g.len() - 1, fr1) =~= g1);
        let ci = resolved(files, q, depth)->0;
        assert(resolved(files, q, depth) is Some);
        assert(depth > 0);
        let tq = files[q];
        let b = std_path_parent(q)->0;
        let child = LoadFrameView { path: q, base: b, tree: tq, next: 0 };
        // One read answers `q` and pushes its frame.
        let s1 = s.0.resumed(answer(files, s.0.pending));
        assert(s1 == run(files, s, 1)) by {
            reveal_with_fuel(run, 2);
        }
        assert(settles(s1, advanced(g1.push(child))));
        let n1 = lemma_finish_frame(files, g1, child, s1, (depth - 1) as nat, ci);
        let s2 = run(files, s1, n1);
        let up = g1.last();
        assert(up == fr1);
        let fr2 = LoadFrameView { tree: fr1.tree.merged(ci), ..fr1 };
        assert(g1.update(g1.len() - 1, fr2) =~= frames.push(fr2));
        assert(settles(s2, advanced(frames.push(fr2))));
        let n2 = lemma_finish_frame(files, frames, fr2, s2, depth, c);
        lemma_run_add(files, s, 1, n1);
        lemma_run_add(files, s, 1 + n1, n2);
        1 + n1 + n2
    }
}

/// Loading resolves includes: when every file the resolution of `root`
/// reaches is in `files` and nesting stays within `depth`, a loader whose
/// reads are answered from `files` ends with the root treefile into which
/// each include, itself resolved, was merged in the order listed, paths
/// taken relative to the parent directory of the including file.
pub proof fn law_load_resolves_includes(files: Map<Seq<char>, TreefileView>, root: Seq<char>, depth: nat)
    requires
        resolved(files, root, depth) is Some,
    ensures
        exists|n: nat|
            #[trigger] run(
                files,
                (LoaderView { frames: Seq::empty(), pending: root, waiting: true }, LoadStepView::Read(root)),
                n,
            ).1 == LoadStepView::Done(resolved(files, root, depth)->0),
{
    let s0 = (LoaderView { frames: Seq::empty(), pending: root, waiting: true }, LoadStepView::Read(root));
    let c = resolved(files, root, depth)->0;
    let t = files[root];
    let b = std_path_parent(root)->0;
    let fr = LoadFrameView { path: root, base: b, tree: t, next: 0 };
    let s1 = s0.0.resumed(answer(files, root));
    assert(s1 == run(files, s0, 1)) by {
        reveal_with_fuel(run, 2);
    }
    assert(Seq::<LoadFrameView>::empty().push(fr) =~= seq![fr]);
    let n1 = lemma_finish_frame(files, Seq::empty(), fr, s1, (depth - 1) as nat, c);
    lemma_run_add(files, s0, 1, n1);
    assert(run(files, s0, 1 + n1).1 == LoadStepView::Done(c));
}


/// How the resolution of a treefile's includes ends: with the treefile, at
/// the first file (depth first) that is missing, or for another reason (a
/// path without a parent directory, or nesting deeper than allowed).
pub enum Resolution {
    Resolved(TreefileView),
    Missing(Seq<char>),
    Unresolved,
}

/// How resolving the treefile at `path` ends, reading from `files` and
/// going at most `depth` levels deep.
pub open spec fn resolution(files: Map<Seq<char>, TreefileView>, path: Seq<char>, depth: nat) -> Resolution
    decreases depth, 0int, 0int,
{
    if depth == 0 {
        Resolution::Unresolved
    } else if !files.contains_key(path) {
        Resolution::Missing(path)
    } else {
        match std_path_parent(path) {
            None => Resolution::Unresolved,
            Some(base) => merged_resolution(files, base, files[path].includes, 0, files[path], (depth - 1) as nat),
        }
    }
}

/// How resolving the includes `incs[i..]` into `acc` ends.
pub open spec fn merged_resolution(
    files: Map<Seq<char>, TreefileView>,
    base: Seq<char>,
    incs: Seq<Seq<char>>,
    i: int,
    acc: TreefileView,
    depth: nat,
) -> Resolution
    decreases depth, 1int, incs.len() - i,
{
    if i < 0 || i >= incs.len() {
        Resolution::Resolved(acc)
    } else {
        match resolution(files, join_text(base, incs[i]), depth) {
            Resolution::Resolved(c) => merged_resolution(files, base, incs, i + 1, acc.merged(c), depth),
            other => other,
        }
    }
}

proof fn lemma_resolution_resolved(files: Map<Seq<char>, TreefileView>, path: Seq<char>, depth: nat)
    ensures
        resolution(files, path, depth) matches Resolution::Resolved(c) ==> resolved(files, path, depth)
            == Some(c),
    decreases depth, 0int, 0int,
{
    if depth > 0 && files.contains_key(path) {
        if let Some(base) = std_path_parent(path) {
            lemma_merged_resolution_resolved(
                files,
                base,
                files[path].includes,
                0,
                files[path],
                (depth - 1) as nat,
            );
        }
    }
}

proof fn lemma_merged_resolution_resolved(
    files: Map<Seq<char>, TreefileView>,
    base: Seq<char>,
    incs: Seq<Seq<char>>,
    i: int,
    acc: TreefileView,
    depth: nat,
)
    ensures
        merged_resolution(files, base, incs, i, acc, depth) matches Resolution::Resolved(c)
            ==> merged_includes(files, base, incs, i, acc, depth) == Some(c),
    decreases depth, 1int, incs.len() - i,
{
    if 0 <= i < incs.len() {
        let q = join_text(base, incs[i]);
        lemma_resolution_resolved(files, q, depth);
        if let Resolution::Resolved(c) = resolution(files, q, depth) {
            lemma_merged_resolution_resolved(files, base, incs, i + 1, acc.merged(c), depth);
        }
    }
}

/// Whether the loader's last request is a failure to read the file `p`.
pub open spec fn failed_reading(step: LoadStepView, p: Seq<char>) -> bool {
    step matches LoadStepView::Failed(e) && e.kind == LoadErrorKind::Read && e.path == p
}

/// From a state that settles `advanced(frames.push(fr))`, where resolving
/// the rest of `fr`'s includes stops at the missing file `p`, the loader
/// comes to fail reading `p`.
proof fn lemma_fail_frame(
    files: Map<Seq<char>, TreefileView>,
    frames: Seq<LoadFrameView>,
    fr: LoadFrameView,
    s: (LoaderView, LoadStepView),
    depth: nat,
    p: Seq<char>,
) -> (n: nat)
    requires
        0 <= fr.next <= fr.tree.includes.len(),
        settles(s, advanced(frames.push(fr))),
        merged_resolution(files, fr.base, fr.tree.includes, fr.next, fr.tree, depth) == Resolution::Missing(p),
    ensures
        failed_reading(run(files, s, n).1, p),
    decreases depth, fr.tree.includes.len() - fr.next,
{
    let g = frames.push(fr);
    assert(g.drop_last() =~= frames);
    assert(g.last() == fr);
    let inc = fr.tree.includes[fr.next];
    let q = join_text(fr.base, inc);
    let fr1 = LoadFrameView { next: fr.next + 1, ..fr };
    let g1 = frames.push(fr1);
    assert(g.update(g.len() - 1, fr1) =~= g1);
    assert(depth > 0);
    let s1 = s.0.resumed(answer(files, s.0.pending));
    assert(s1 == run(files, s, 1)) by {
        reveal_with_fuel(run, 2);
    }
    if !files.contains_key(q) {
        assert(p == q);
        assert(failed_reading(s1.1, p));
        1
    } else {
        let tq = files[q];
        let b = std_path_parent(q)->0;
        let child = LoadFrameView { path: q, base: b, tree: tq, next: 0 };
        assert(settles(s1, advanced(g1.push(child))));
        match resolution(files, q, depth) {
            Resolution::Resolved(ci) => {
                lemma_resolution_resolved(files, q, depth);
                let n1 = lemma_finish_frame(files, g1, child, s1, (depth - 1) as nat, ci);
                let s2 = run(files, s1, n1);
                let fr2 = LoadFrameView { tree: fr1.tree.merged(ci), ..fr1 };
                assert(g1.last() == fr1);
                assert(g1.update(g1.len() - 1, fr2) =~= frames.push(fr2));
                assert(settles(s2, advanced(frames.push(fr2))));
                let n2 = lemma_fail_frame(files, frames, fr2, s2, depth, p);
                lemma_run_add(files, s, 1, n1);
                lemma_run_add(files, s, 1 + n1, n2);
                1 + n1 + n2
            },
            _ => {
                let n1 = lemma_fail_frame(files, g1, child, s1, (depth - 1) as nat, p);
                lemma_run_add(files, s, 1, n1);
                1 + n1
            },
        }
    }
}

/// Loading fails at a missing file: when resolving `root` (within `depth`
/// levels) comes, depth first, to an include that `files` does not hold,
/// a loader whose reads are answered from `files` ends failing to read
/// that file.
pub proof fn law_load_fails_at_missing_file(
    files: Map<Seq<char>, TreefileView>,
    root: Seq<char>,
    depth: nat,
    p: Seq<char>,
)
    requires
        resolution(files, root, depth) == Resolution::Missing(p),
    ensures
        exists|n: nat|
            failed_reading(
                #[trigger] run(
                    files,
                    (LoaderView { frames: Seq::empty(), pending: root, waiting: true }, LoadStepView::Read(root)),
                    n,
                ).1,
                p,
            ),
{
    let s0 = (LoaderView { frames: Seq::empty(), pending: root, waiting: true }, LoadStepView::Read(root));
    let s1 = s0.0.resumed(answer(files, root));
    assert(s1 == run(files, s0, 1)) by {
        reveal_with_fuel(run, 2);
    }
    if !files.contains_key(root) {
        assert(failed_reading(run(files, s0, 1).1, p));
    } else {
        let t = files[root];
        let b = std_path_parent(root)->0;
        let fr = LoadFrameView { path: root, base: b, tree: t, next: 0 };
        assert(Seq::<LoadFrameView>::empty().push(fr) =~= seq![fr]);
        let n1 = lemma_fail_frame(files, Seq::empty(), fr, s1, (depth - 1) as nat, p);
        lemma_run_add(files, s0, 1, n1);
        assert(failed_reading(run(files, s0, 1 + n1).1, p));
    }
}

} // verus!
