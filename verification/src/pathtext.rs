//! Paths as text: splitting into components, comparing, joining.

use vstd::prelude::*;
use vstd::string::*;

verus! {

/// The characters of a string.
pub fn chars_of(s: &str) -> (r: Vec<char>)
    ensures
        r@ == s@,
{
    let n = s.unicode_len();
    let mut r: Vec<char> = Vec::new();
    for i in 0..n
        invariant
            n == s@.len(),
            r@ == s@.take(i as int),
    {
        let c = s.get_char(i);
        r.push(c);
        assert(r@ =~= s@.take(i + 1));
    }
    assert(s@.take(n as int) =~= s@);
    r
}

/// The `/`-separated segments of a text, empty ones included.
pub open spec fn segments(s: Seq<char>) -> Seq<Seq<char>>
    decreases s.len(),
{
    if s.len() == 0 {
        seq![Seq::empty()]
    } else {
        let init = segments(s.drop_last());
        if s.last() == '/' {
            init.push(Seq::empty())
        } else {
            init.update(init.len() - 1, init.last().push(s.last()))
        }
    }
}

pub proof fn lemma_segments_nonempty(s: Seq<char>)
    ensures
        segments(s).len() >= 1,
    decreases s.len(),
{
    if s.len() > 0 {
        lemma_segments_nonempty(s.drop_last());
    }
}

/// Whether a segment names a component: neither empty nor `.`.
pub open spec fn is_normal_segment(x: Seq<char>) -> bool {
    x.len() > 0 && x != seq!['.']
}

/// The components of a path other than a root or a leading `.`:
/// repeated separators, trailing separators and inner `.` are dropped.
pub open spec fn normal_components(s: Seq<char>) -> Seq<Seq<char>> {
    segments(s).filter(|x: Seq<char>| is_normal_segment(x))
}

/// Whether the path starts at the root.
pub open spec fn has_root(s: Seq<char>) -> bool {
    s.len() > 0 && s[0] == '/'
}

/// Whether a relative path starts with a `.` component.
pub open spec fn has_cur_dir(s: Seq<char>) -> bool {
    !has_root(s) && segments(s)[0] == seq!['.']
}

/// Path equality, component by component (as `Path` compares on Unix).
pub open spec fn same_path(a: Seq<char>, b: Seq<char>) -> bool {
    &&& has_root(a) == has_root(b)
    &&& has_cur_dir(a) == has_cur_dir(b)
    &&& normal_components(a) == normal_components(b)
}

/// A vector of characters is its own deep value.
pub proof fn lemma_chars_deep(v: &Vec<char>)
    ensures
        v.deep_view() == v@,
{
    assert(v.deep_view() =~= v@);
}

/// The segments of a text.
fn segments_of(cs: &Vec<char>) -> (r: Vec<Vec<char>>)
    ensures
        r.deep_view() == segments(cs@),
{
    let mut done: Vec<Vec<char>> = Vec::new();
    let mut cur: Vec<char> = Vec::new();
    assert(cs@.take(0) =~= Seq::<char>::empty());
    assert(done.deep_view().push(cur@) =~= segments(cs@.take(0)));
    for i in 0..cs.len()
        invariant
            segments(cs@.take(i as int)) == done.deep_view().push(cur@),
    {
        let c = cs[i];
        let ghost prev = cs@.take(i as int);
        assert(cs@.take(i + 1).drop_last() =~= prev);
        assert(cs@.take(i + 1).last() == c);
        proof {
            lemma_segments_nonempty(prev);
        }
        if c == '/' {
            let ghost d0 = done.deep_view();
            let old_cur = cur;
            proof { lemma_chars_deep(&old_cur); }
            done.push(old_cur);
            cur = Vec::new();
            assert(done.deep_view() =~= d0.push(old_cur@));
            assert(done.deep_view().push(cur@) =~= segments(cs@.take(i + 1)));
        } else {
            let ghost c0 = cur@;
            cur.push(c);
            assert(done.deep_view().push(cur@) =~= segments(cs@.take(i + 1)));
        }
    }
    assert(cs@.take(cs.len() as int) =~= cs@);
    let ghost d0 = done.deep_view();
    proof { lemma_chars_deep(&cur); }
    done.push(cur);
    assert(done.deep_view() =~= d0.push(cur@));
    done
}

/// Whether a segment is `.`.
fn is_dot(x: &Vec<char>) -> (r: bool)
    ensures
        r == (x@ == seq!['.']),
{
    if x.len() == 1 && x[0] == '.' {
        assert(x@ =~= seq!['.']);
        true
    } else {
        false
    }
}

/// The normal components among segments.
fn normal_of(segs: &Vec<Vec<char>>) -> (r: Vec<Vec<char>>)
    ensures
        r.deep_view() == segs.deep_view().filter(|x: Seq<char>| is_normal_segment(x)),
{
    let ghost sv = segs.deep_view();
    let ghost keep = |x: Seq<char>| is_normal_segment(x);
    let mut r: Vec<Vec<char>> = Vec::new();
    assert(sv.take(0).filter(keep) =~= Seq::<Seq<char>>::empty()) by {
        reveal(Seq::filter);
    }
    for i in 0..segs.len()
        invariant
            sv == segs.deep_view(),
            keep == (|x: Seq<char>| is_normal_segment(x)),
            r.deep_view() == sv.take(i as int).filter(keep),
    {
        let seg = &segs[i];
        proof { lemma_chars_deep(seg); }
        let normal = seg.len() > 0 && !is_dot(seg);
        assert(normal == keep(sv[i as int]));
        if normal {
            let ghost r0 = r.deep_view();
            r.push(seg.clone());
            assert(r.deep_view() =~= r0.push(seg@));
        }
        proof {
            reveal(Seq::filter);
            assert(sv.take(i + 1).drop_last() =~= sv.take(i as int));
            assert(sv.take(i + 1).last() == sv[i as int]);
        }
    }
    assert(sv.take(segs.len() as int) =~= sv);
    r
}

/// Whether two lists of segments are equal.
fn segs_eq(a: &Vec<Vec<char>>, b: &Vec<Vec<char>>) -> (r: bool)
    ensures
        r == (a.deep_view() == b.deep_view()),
{
    if a.len() != b.len() {
        assert(a.deep_view().len() != b.deep_view().len());
        return false;
    }
    for i in 0..a.len()
        invariant
            a.len() == b.len(),
            forall|j: int| 0 <= j < i ==> a.deep_view()[j] == b.deep_view()[j],
    {
        let x = &a[i];
        let y = &b[i];
        proof {
            lemma_chars_deep(x);
            lemma_chars_deep(y);
        }
        if x.len() != y.len() {
            assert(a.deep_view()[i as int].len() != b.deep_view()[i as int].len());
            return false;
        }
        for k in 0..x.len()
            invariant
                x.len() == y.len(),
                i < a.len(),
                a.deep_view()[i as int] == x@,
                b.deep_view()[i as int] == y@,
                forall|m: int| 0 <= m < k ==> x@[m] == y@[m],
        {
            if x[k] != y[k] {
                assert(a.deep_view()[i as int][k as int] != b.deep_view()[i as int][k as int]);
                return false;
            }
        }
        assert(x@ =~= y@);
    }
    assert(a.deep_view() =~= b.deep_view());
    true
}

/// Whether two paths name the same path, component by component.
pub fn same_path_text(a: &str, b: &str) -> (r: bool)
    ensures
        r == same_path(a@, b@),
{
    let ac = chars_of(a);
    let bc = chars_of(b);
    let a_root = ac.len() > 0 && ac[0] == '/';
    let b_root = bc.len() > 0 && bc[0] == '/';
    let asegs = segments_of(&ac);
    let bsegs = segments_of(&bc);
    proof {
        lemma_segments_nonempty(a@);
        lemma_segments_nonempty(b@);
        lemma_chars_deep(&asegs[0]);
        lemma_chars_deep(&bsegs[0]);
    }
    let a_cur = !a_root && is_dot(&asegs[0]);
    let b_cur = !b_root && is_dot(&bsegs[0]);
    if a_root != b_root || a_cur != b_cur {
        return false;
    }
    let an = normal_of(&asegs);
    let bn = normal_of(&bsegs);
    segs_eq(&an, &bn)
}

/// The text `s` without its leading `/` characters.
pub open spec fn trim_leading_slashes(s: Seq<char>) -> Seq<char>
    decreases s.len(),
{
    if s.len() > 0 && s[0] == '/' {
        trim_leading_slashes(s.drop_first())
    } else {
        s
    }
}

/// `rel` adjoined to `base` as `PathBuf::push` does on Unix: an absolute
/// `rel` replaces `base`; otherwise a separator is put between them unless
/// `base` is empty or already ends with one.
pub open spec fn join_text(base: Seq<char>, rel: Seq<char>) -> Seq<char> {
    if has_root(rel) {
        rel
    } else if base.len() == 0 || base.last() == '/' {
        base + rel
    } else {
        base + seq!['/'] + rel
    }
}

/// `rel` adjoined to `base` (see [`join_text`]).
pub fn join(base: &str, rel: &str) -> (r: String)
    ensures
        r@ == join_text(base@, rel@),
{
    let bn = base.unicode_len();
    let rn = rel.unicode_len();
    if rn > 0 && rel.get_char(0) == '/' {
        return String::from_str(rel);
    }
    let mut r = String::from_str(base);
    if bn > 0 && base.get_char(bn - 1) != '/' {
        r.append("/");
        proof {
            reveal_strlit("/");
        }
    }
    r.append(rel);
    r
}

proof fn lemma_trim_skip(s: Seq<char>, i: int)
    requires
        0 <= i <= s.len(),
        forall|j: int| 0 <= j < i ==> s[j] == '/',
    ensures
        trim_leading_slashes(s) == trim_leading_slashes(s.subrange(i, s.len() as int)),
    decreases i,
{
    if i > 0 {
        assert(s.drop_first().subrange(i - 1, s.drop_first().len() as int) =~= s.subrange(
            i,
            s.len() as int,
        ));
        lemma_trim_skip(s.drop_first(), i - 1);
    } else {
        assert(s.subrange(0, s.len() as int) =~= s);
    }
}

/// `s` without its leading `/` characters.
pub fn trim_start_slashes(s: &str) -> (r: &str)
    ensures
        r@ == trim_leading_slashes(s@),
{
    let n = s.unicode_len();
    let mut i: usize = 0;
    while i < n && s.get_char(i) == '/'
        invariant
            n == s@.len(),
            i <= n,
            forall|j: int| 0 <= j < i ==> s@[j] == '/',
        decreases n - i,
    {
        i = i + 1;
    }
    proof {
        lemma_trim_skip(s@, i as int);
        let rest = s@.subrange(i as int, n as int);
        if rest.len() > 0 {
            assert(rest[0] == s@[i as int]);
        }
    }
    s.substring_char(i, n)
}

/// The final component of a path when it names a file: `None` when the
/// path ends at its root or a leading `.`, or in `..`.
pub open spec fn file_name_of(p: Seq<char>) -> Option<Seq<char>> {
    let nc = normal_components(p);
    if nc.len() == 0 || nc.last() == seq!['.', '.'] {
        None
    } else {
        Some(nc.last())
    }
}

/// The position of the last `.` in a text, `-1` when there is none.
pub open spec fn last_dot(s: Seq<char>) -> int
    decreases s.len(),
{
    if s.len() == 0 {
        -1
    } else if s.last() == '.' {
        s.len() - 1
    } else {
        last_dot(s.drop_last())
    }
}

/// The extension of a path: what follows the last `.` of its file name;
/// `None` when there is no file name, no `.` in it, or its only `.` is
/// the one it begins with.
pub open spec fn extension_of(p: Seq<char>) -> Option<Seq<char>> {
    match file_name_of(p) {
        None => None,
        Some(f) => {
            let k = last_dot(f);
            if k <= 0 {
                None
            } else {
                Some(f.subrange(k + 1, f.len() as int))
            }
        },
    }
}

/// What `std::path::Path::parent` gives for the path `p`, as text.
pub uninterp spec fn std_path_parent(p: Seq<char>) -> Option<Seq<char>>;

/// The directory part of a path, computed by `std::path::Path::parent`.
/// As its documentation says, the result is the path without its final
/// component (a leading `.` or a normal component, `..` included),
/// `Some("")` for a relative path of one component, and `None` for a path
/// that ends at its root or is empty. The exact text (which separators
/// and inner `.` of the original it keeps) is left to the name.
#[verifier::external_body]
pub(crate) fn path_parent(p: &str) -> (r: Option<String>)
    ensures
        r.deep_view() == std_path_parent(p@),
        r is None <==> (normal_components(p@).len() == 0 && !has_cur_dir(p@)),
        r matches Some(q) ==> has_root(q@) == has_root(p@),
        r matches Some(q) ==> has_cur_dir(q@) == (has_cur_dir(p@) && normal_components(p@).len() > 0),
        r matches Some(q) ==> (normal_components(p@).len() > 0 ==> normal_components(q@)
            == normal_components(p@).drop_last()),
        r matches Some(q) ==> (normal_components(p@).len() == 0 ==> normal_components(q@).len() == 0),
        r.deep_view() == Some(Seq::<char>::empty()) <== (!has_root(p@) && !has_cur_dir(p@)
            && normal_components(p@).len() == 1),
{
    match std::path::Path::new(p).parent() {
        Some(d) => Some(d.to_string_lossy().into_owned()),
        None => None,
    }
}

} // verus!

verus! {

/// Whether `s` ends with `suffix`.
pub open spec fn ends_with(s: Seq<char>, suffix: Seq<char>) -> bool {
    s.len() >= suffix.len() && s.subrange(s.len() - suffix.len(), s.len() as int) == suffix
}

/// Whether `s` ends with `suffix`.
pub fn ends_with_text(s: &str, suffix: &str) -> (r: bool)
    ensures
        r == ends_with(s@, suffix@),
{
    let sc = chars_of(s);
    let xc = chars_of(suffix);
    if sc.len() < xc.len() {
        return false;
    }
    let off = sc.len() - xc.len();
    for k in 0..xc.len()
        invariant
            off == sc.len() - xc.len(),
            sc@ == s@,
            xc@ == suffix@,
            forall|m: int| 0 <= m < k ==> sc@[off + m] == xc@[m],
    {
        if sc[off + k] != xc[k] {
            assert(s@.subrange(off as int, s@.len() as int)[k as int] != suffix@[k as int]);
            return false;
        }
    }
    assert(s@.subrange(off as int, s@.len() as int) =~= suffix@);
    true
}

} // verus!
