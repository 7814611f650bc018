//! tmpfiles.d entries for /var, which bootc populates on first boot.

use vstd::prelude::*;

use super::{Phase, Transform};
use crate::text::{contains_text, occurs_at};
use crate::rootfs::{
    concat, info, owned, push_component, push_op, push_path, rel2, rel3, DirItem, DirItemV, FsOp,
    FsOpV, Listing, ListingV, NodeKind, PathV, ProbeV, RelPath, Snapshot,
};

verus! {

/// A bootc image ships /var empty: its directories are created on first
/// boot from tmpfiles.d. Write those entries (home directories, the
/// rpm-state directory and each directory found in /var/lib), remove
/// systemd's home.conf, which conflicts with /home being a symlink, and
/// move the paths provision.conf gives under /root to /var/roothome.
#[derive(Debug)]
pub struct VarTmpfiles;

pub open spec fn tmpfiles_dir() -> PathV {
    seq!["usr"@, "lib"@, "tmpfiles.d"@]
}

pub open spec fn var_conf() -> PathV {
    tmpfiles_dir().push("bootc-base-var.conf"@)
}

pub open spec fn home_conf() -> PathV {
    tmpfiles_dir().push("home.conf"@)
}

pub open spec fn provision_conf() -> PathV {
    tmpfiles_dir().push("provision.conf"@)
}

pub open spec fn var_lib() -> PathV {
    seq!["var"@, "lib"@]
}

/// The entries every image gets.
pub open spec fn fixed_entries() -> Seq<char> {
    "d /var/home 0755 root root -\nd /var/roothome 0700 root root -\nd /var/lib/rpm-state 0755 root root -\n"@
}

/// Whether a directory of /var/lib gets an entry of its own: the rpm
/// database moves to /usr, and rpm-state has its fixed entry.
pub open spec fn lib_entry_wanted(name: Seq<char>) -> bool {
    name != "rpm"@ && name != "rpm-state"@
}

/// The entries for the directories listed in /var/lib, in listing order.
pub open spec fn lib_entries(items: Seq<DirItemV>) -> Seq<char>
    decreases items.len(),
{
    if items.len() == 0 {
        Seq::empty()
    } else {
        lib_entries(items.drop_last()) + match items.last() {
            DirItemV::Entry(n, Some(NodeKind::Dir)) => if lib_entry_wanted(n) {
                "d /var/lib/"@ + n + " 0755 root root -\n"@
            } else {
                Seq::empty()
            },
            _ => Seq::empty(),
        }
    }
}

/// The contents of bootc-base-var.conf.
pub open spec fn var_conf_text(snap: Seq<ProbeV>) -> Seq<char> {
    fixed_entries() + match info(snap, var_lib()).listing {
        ListingV::Read(items) => lib_entries(items),
        _ => Seq::empty(),
    }
}

/// Whether `c` ends a path component in provision.conf: a separator,
/// blank or line end.
pub open spec fn is_path_end(c: char) -> bool {
    c == '/' || c == ' ' || c == '\t' || c == '\n'
}

/// Whether the path /root (a whole component, after a blank) starts at
/// position `i` of `s`.
pub open spec fn root_at(s: Seq<char>, i: int) -> bool {
    &&& 0 <= i
    &&& i + 6 <= s.len()
    &&& s.subrange(i, i + 6) == " /root"@
    &&& (i + 6 == s.len() || is_path_end(s[i + 6]))
}

/// provision.conf with each path /root, and each path under it, moved to
/// /var/roothome.
pub open spec fn provision_fixed(s: Seq<char>) -> Seq<char>
    decreases s.len(),
{
    if s.len() == 0 {
        s
    } else if root_at(s, 0) {
        " /var/roothome"@ + provision_fixed(s.skip(6))
    } else {
        seq![s[0]] + provision_fixed(s.skip(1))
    }
}

/// provision.conf still names /root.
pub open spec fn provision_needed(snap: Seq<ProbeV>) -> bool {
    info(snap, provision_conf()).text matches Some(t) && provision_fixed(t) != t
}

pub open spec fn var_tmpfiles_plan(snap: Seq<ProbeV>) -> Seq<FsOpV> {
    seq![
        FsOpV::CreateDirAll(tmpfiles_dir(), "creating usr/lib/tmpfiles.d"@),
        FsOpV::WriteFile(var_conf(), var_conf_text(snap), "writing bootc-base-var.conf"@),
    ] + (if info(snap, home_conf()).lstat is Some {
        seq![FsOpV::RemoveFile(home_conf(), "removing home.conf"@)]
    } else {
        seq![]
    }) + (if provision_needed(snap) {
        seq![
            FsOpV::WriteFile(
                provision_conf(),
                provision_fixed(info(snap, provision_conf()).text->0),
                "writing provision.conf"@,
            ),
        ]
    } else {
        seq![]
    })
}

proof fn lemma_root_at_skip(u: Seq<char>, j: int)
    requires
        u.len() > 0,
        root_at(u.skip(1), j),
    ensures
        root_at(u, j + 1),
{
    assert(u.subrange(j + 1, j + 7) =~= u.skip(1).subrange(j, j + 6));
    if j + 7 < u.len() {
        assert(u[j + 7] == u.skip(1)[j + 6]);
    }
}

/// A text without /root in it is left as it is.
proof fn lemma_fixed_unchanged(u: Seq<char>)
    requires
        forall|i: int| !root_at(u, i),
    ensures
        provision_fixed(u) == u,
    decreases u.len(),
{
    if u.len() > 0 {
        assert(!root_at(u, 0));
        assert forall|j: int| !root_at(u.skip(1), j) by {
            if root_at(u.skip(1), j) {
                lemma_root_at_skip(u, j);
            }
        }
        lemma_fixed_unchanged(u.skip(1));
        assert(seq![u[0]] + u.skip(1) =~= u);
    }
}

/// The fixed text starts with the same character.
proof fn lemma_fixed_first(y: Seq<char>)
    requires
        y.len() > 0,
    ensures
        provision_fixed(y).len() > 0,
        provision_fixed(y)[0] == y[0],
{
    reveal_strlit(" /root");
    reveal_strlit(" /var/roothome");
    if root_at(y, 0) {
        assert(y[0] == y.subrange(0, 6)[0]);
    }
}

/// Where the fixed text starts with `w`, which holds no blank, the text
/// itself starts with `w`, and so does the fix of the rest.
proof fn lemma_fixed_prefix(y: Seq<char>, w: Seq<char>)
    requires
        w.len() <= provision_fixed(y).len(),
        provision_fixed(y).subrange(0, w.len() as int) == w,
        forall|k: int| 0 <= k < w.len() ==> w[k] != ' ',
    ensures
        w.len() <= y.len(),
        y.subrange(0, w.len() as int) == w,
        provision_fixed(y) == w + provision_fixed(y.skip(w.len() as int)),
    decreases w.len(),
{
    if w.len() == 0 {
        assert(y.skip(0) =~= y);
        assert(w + provision_fixed(y) =~= provision_fixed(y));
        assert(y.subrange(0, 0) =~= w);
    } else {
        if y.len() == 0 {
            assert(provision_fixed(y).len() == 0);
        }
        lemma_fixed_first(y);
        assert(w[0] == provision_fixed(y)[0]);
        reveal_strlit(" /root");
        if root_at(y, 0) {
            assert(y[0] == y.subrange(0, 6)[0]);
        }
        assert(!root_at(y, 0));
        let f1 = provision_fixed(y.skip(1));
        assert(provision_fixed(y) == seq![y[0]] + f1);
        let w1 = w.skip(1);
        assert(f1.subrange(0, w1.len() as int) =~= provision_fixed(y).subrange(0, w.len() as int).skip(1));
        lemma_fixed_prefix(y.skip(1), w1);
        assert(y.skip(1).skip(w1.len() as int) =~= y.skip(w.len() as int));
        assert(y.subrange(0, w.len() as int) =~= seq![y[0]] + y.skip(1).subrange(0, w1.len() as int));
        assert(seq![w[0]] + w1 =~= w);
        assert(provision_fixed(y) =~= w + provision_fixed(y.skip(w.len() as int)));
    }
}

/// A fixed text holds no /root.
proof fn lemma_fixed_clean(s: Seq<char>)
    ensures
        forall|i: int| !root_at(provision_fixed(s), i),
    decreases s.len(),
{
    reveal_strlit(" /root");
    reveal_strlit(" /var/roothome");
    if s.len() > 0 {
        let out = provision_fixed(s);
        if root_at(s, 0) {
            lemma_fixed_clean(s.skip(6));
            let r = " /var/roothome"@;
            let o1 = provision_fixed(s.skip(6));
            assert(out == r + o1);
            assert forall|i: int| !root_at(out, i) by {
                if root_at(out, i) {
                    if i >= 14 {
                        assert(out.subrange(i, i + 6) =~= o1.subrange(i - 14, i - 8));
                        if i + 6 < out.len() {
                            assert(out[i + 6] == o1[i - 8]);
                        }
                        assert(root_at(o1, i - 14));
                    } else {
                        assert(out[i] == out.subrange(i, i + 6)[0]);
                        assert(out[i] == ' ');
                        assert(out[i] == r[i]);
                        assert(i == 0);
                        assert(out[2] == out.subrange(0, 6)[2]);
                        assert(out[2] == 'r');
                        assert(out[2] == r[2]);
                    }
                }
            }
        } else {
            lemma_fixed_clean(s.skip(1));
            let o1 = provision_fixed(s.skip(1));
            assert(out == seq![s[0]] + o1);
            assert forall|i: int| !root_at(out, i) by {
                if root_at(out, i) {
                    if i >= 1 {
                        assert(out.subrange(i, i + 6) =~= o1.subrange(i - 1, i + 5));
                        if i + 6 < out.len() {
                            assert(out[i + 6] == o1[i + 5]);
                        }
                        assert(root_at(o1, i - 1));
                    } else {
                        // `s` itself would start with /root.
                        reveal_strlit("/root");
                        let w = "/root"@;
                        assert(" /root"@ =~= seq![' '] + w);
                        assert(o1.subrange(0, 5) =~= out.subrange(0, 6).skip(1));
                        assert(o1.subrange(0, 5) =~= w);
                        lemma_fixed_prefix(s.skip(1), w);
                        assert(s.subrange(0, 6) =~= seq![s[0]] + s.skip(1).subrange(0, 5));
                        assert(s[0] == out[0]);
                        assert(out[0] == out.subrange(0, 6)[0]);
                        if s.len() > 6 {
                            let z = s.skip(1).skip(5);
                            assert(z.len() > 0);
                            lemma_fixed_first(z);
                            assert(o1 == w + provision_fixed(z));
                            assert(out[6] == o1[5]);
                            assert(o1[5] == provision_fixed(z)[0]);
                            assert(z[0] == s[6]);
                            assert(out.len() > 6);
                            assert(is_path_end(s[6]));
                        } else {
                            assert(s.skip(1).skip(5).len() == 0);
                            assert(o1 =~= w);
                        }
                        assert(s.subrange(0, 6) =~= " /root"@);
                        assert(root_at(s, 0));
                    }
                }
            }
        }
    }
}

/// Fixing provision.conf a second time changes nothing.
pub proof fn law_provision_fix_idempotent(t: Seq<char>)
    ensures
        provision_fixed(provision_fixed(t)) == provision_fixed(t),
{
    lemma_fixed_clean(t);
    lemma_fixed_unchanged(provision_fixed(t));
}

/// The line of the entry for the directory `n` of /var/lib.
pub open spec fn var_lib_line(n: Seq<char>) -> Seq<char> {
    "d /var/lib/"@ + n + " 0755 root root -\n"@
}

proof fn lemma_lib_entries_end(items: Seq<DirItemV>)
    ensures
        lib_entries(items).len() == 0 || lib_entries(items).last() == '\n',
    decreases items.len(),
{
    reveal_strlit(" 0755 root root -\n");
    if items.len() > 0 {
        lemma_lib_entries_end(items.drop_last());
    }
}

/// Where in the entries the line of the wanted directory `items[i]` starts.
proof fn lemma_line_in(items: Seq<DirItemV>, i: int) -> (p: int)
    requires
        0 <= i < items.len(),
        items[i] matches DirItemV::Entry(n, Some(NodeKind::Dir)) && n != "rpm"@ && n != "rpm-state"@,
    ensures
        0 <= p,
        p + var_lib_line(items[i]->Entry_0).len() <= lib_entries(items).len(),
        lib_entries(items).subrange(p, p + var_lib_line(items[i]->Entry_0).len()) == var_lib_line(
            items[i]->Entry_0,
        ),
        p == 0 || lib_entries(items)[p - 1] == '\n',
    decreases items.len(),
{
    let init = items.drop_last();
    let line = var_lib_line(items[i]->Entry_0);
    if i < items.len() - 1 {
        assert(init[i] == items[i]);
        let p = lemma_line_in(init, i);
        assert(lib_entries(items).subrange(p, p + line.len()) =~= lib_entries(init).subrange(p, p + line.len()));
        if p > 0 {
            assert(lib_entries(items)[p - 1] == lib_entries(init)[p - 1]);
        }
        p
    } else {
        lemma_lib_entries_end(init);
        let p = lib_entries(init).len() as int;
        assert(items.last() == items[i]);
        assert(lib_entries(items) == lib_entries(init) + line);
        assert(lib_entries(items).subrange(p, p + line.len()) =~= line);
        if p > 0 {
            assert(lib_entries(items)[p - 1] == lib_entries(init).last());
        }
        p
    }
}

/// Every directory listed in /var/lib, but the rpm database and
/// rpm-state (which has its own entry), gets a line of its own in
/// bootc-base-var.conf, so that it is created on first boot.
pub proof fn law_var_lib_dirs_get_entries(rootfs: Seq<char>, snap: Seq<ProbeV>, i: int)
    requires
        info(snap, seq!["var"@, "lib"@]).listing is Read,
        0 <= i < info(snap, seq!["var"@, "lib"@]).listing->Read_0.len(),
        info(snap, seq!["var"@, "lib"@]).listing->Read_0[i] matches DirItemV::Entry(n, Some(NodeKind::Dir))
            && n != "rpm"@ && n != "rpm-state"@,
    ensures
        ({
            let op = VarTmpfiles.spec_plan(rootfs, snap)[1];
            let n = info(snap, seq!["var"@, "lib"@]).listing->Read_0[i]->Entry_0;
            &&& op is WriteFile
            &&& op->WriteFile_0 == seq!["usr"@, "lib"@, "tmpfiles.d"@, "bootc-base-var.conf"@]
            &&& contains_text(op->WriteFile_1, "\nd /var/lib/"@ + n + " 0755 root root -\n"@)
        }),
{
    reveal_strlit("d /var/home 0755 root root -\nd /var/roothome 0700 root root -\nd /var/lib/rpm-state 0755 root root -\n");
    reveal_strlit("\nd /var/lib/");
    reveal_strlit("d /var/lib/");
    reveal_strlit("\n");
    let items = info(snap, seq!["var"@, "lib"@]).listing->Read_0;
    let n = items[i]->Entry_0;
    let line = var_lib_line(n);
    let p = lemma_line_in(items, i);
    let fx = fixed_entries();
    let le = lib_entries(items);
    let t = fx + le;
    assert(t == var_conf_text(snap));
    let q = fx.len() + p - 1;
    let pat = "\nd /var/lib/"@ + n + " 0755 root root -\n"@;
    assert(pat =~= seq!['\n'] + line);
    if p > 0 {
        assert(t[q] == le[p - 1]);
    } else {
        assert(t[q] == fx.last());
    }
    assert(t.subrange(q, q + pat.len()) =~= seq![t[q]] + le.subrange(p, p + line.len()));
    assert(occurs_at(t, pat, q));
}

proof fn lemma_root_occurrence(t: Seq<char>, q: int, sep: char)
    requires
        sep == '/' || sep == ' ',
        occurs_at(t, " /root"@ + seq![sep], q),
    ensures
        root_at(t, q),
{
    reveal_strlit(" /root");
    assert(t.subrange(q, q + 6) =~= t.subrange(q, q + 7).take(6));
    assert((" /root"@ + seq![sep]).take(6) =~= " /root"@);
    assert(t[q + 6] == t.subrange(q, q + 7)[6]);
}

/// What `var_tmpfiles` does to the files it replaces: a provision.conf
/// that names /root (as ` /root/` or ` /root `) is rewritten so that it
/// no longer does, and home.conf, where there is one, is removed.
pub proof fn law_var_tmpfiles_rewrites(rootfs: Seq<char>, snap: Seq<ProbeV>)
    ensures
        ({
            let t = info(snap, seq!["usr"@, "lib"@, "tmpfiles.d"@, "provision.conf"@]).text->0;
            info(snap, seq!["usr"@, "lib"@, "tmpfiles.d"@, "provision.conf"@]).text is Some && (
            contains_text(t, " /root/"@) || contains_text(t, " /root "@)) ==> VarTmpfiles.spec_plan(
                rootfs,
                snap,
            ).last() is WriteFile && VarTmpfiles.spec_plan(rootfs, snap).last()->WriteFile_0 == seq![
                "usr"@,
                "lib"@,
                "tmpfiles.d"@,
                "provision.conf"@,
            ] && !contains_text(VarTmpfiles.spec_plan(rootfs, snap).last()->WriteFile_1, " /root/"@)
                && !contains_text(VarTmpfiles.spec_plan(rootfs, snap).last()->WriteFile_1, " /root "@)
        }),
        info(snap, seq!["usr"@, "lib"@, "tmpfiles.d"@, "home.conf"@]).lstat is Some
            ==> VarTmpfiles.spec_plan(rootfs, snap)[2] == FsOpV::RemoveFile(
            seq!["usr"@, "lib"@, "tmpfiles.d"@, "home.conf"@],
            "removing home.conf"@,
        ),
{
    reveal_strlit(" /root");
    reveal_strlit(" /root/");
    reveal_strlit(" /root ");
    assert(" /root/"@ =~= " /root"@ + seq!['/']);
    assert(" /root "@ =~= " /root"@ + seq![' ']);
    let t = info(snap, provision_conf()).text->0;
    lemma_fixed_clean(t);
    let f = provision_fixed(t);
    if info(snap, provision_conf()).text is Some && (contains_text(t, " /root/"@) || contains_text(t, " /root "@)) {
        if contains_text(t, " /root/"@) {
            let q = choose|q: int| occurs_at(t, " /root/"@, q);
            lemma_root_occurrence(t, q, '/');
        } else {
            let q = choose|q: int| occurs_at(t, " /root "@, q);
            lemma_root_occurrence(t, q, ' ');
        }
        assert(f != t);
        assert(provision_needed(snap));
        if contains_text(f, " /root/"@) {
            let q = choose|q: int| occurs_at(f, " /root/"@, q);
            lemma_root_occurrence(f, q, '/');
        }
        if contains_text(f, " /root "@) {
            let q = choose|q: int| occurs_at(f, " /root "@, q);
            lemma_root_occurrence(f, q, ' ');
        }
    }
    assert(home_conf() =~= seq!["usr"@, "lib"@, "tmpfiles.d"@, "home.conf"@]);
    assert(provision_conf() =~= seq!["usr"@, "lib"@, "tmpfiles.d"@, "provision.conf"@]);
}

fn tmpfiles_path(name: &str) -> (r: RelPath)
    ensures
        r.deep_view() == tmpfiles_dir().push(name@),
{
    let mut r = rel3("usr", "lib", "tmpfiles.d");
    push_component(&mut r, name);
    assert(r.deep_view() =~= tmpfiles_dir().push(name@));
    r
}

fn is_path_end_exec(c: char) -> (r: bool)
    ensures
        r == is_path_end(c),
{
    c == '/' || c == ' ' || c == '\t' || c == '\n'
}

fn provision_fixed_exec(s: &str) -> (r: String)
    ensures
        r@ == provision_fixed(s@),
{
    let n = s.unicode_len();
    let mut out = String::new();
    let mut i: usize = 0;
    assert(s@.skip(0) =~= s@);
    proof {
        reveal_strlit(" /root");
    }
    while i < n
        invariant
            n == s@.len(),
            i <= n,
            " /root"@.len() == 6,
            out@ + provision_fixed(s@.skip(i as int)) == provision_fixed(s@),
        decreases n - i,
    {
        let ghost rest = s@.skip(i as int);
        let ghost before = out@;
        let at_root = n - i >= 6 && owned(s.substring_char(i, i + 6)) == owned(" /root") && (n - i
            == 6 || is_path_end_exec(s.get_char(i + 6)));
        proof {
            if n - i >= 6 {
                assert(rest.subrange(0, 6) =~= s@.subrange(i as int, i + 6));
                if n - i > 6 {
                    assert(rest[6] == s@[i + 6]);
                }
            }
            assert(at_root == root_at(rest, 0));
        }
        if at_root {
            proof {
                assert(rest.skip(6) =~= s@.skip(i + 6));
                assert(before + (" /var/roothome"@ + provision_fixed(s@.skip(i + 6))) =~= (before
                    + " /var/roothome"@) + provision_fixed(s@.skip(i + 6)));
            }
            out.append(" /var/roothome");
            i = i + 6;
        } else {
            proof {
                assert(rest.skip(1) =~= s@.skip(i + 1));
                assert(rest[0] == s@[i as int]);
            }
            let c = s.substring_char(i, i + 1);
            proof {
                assert(c@ =~= seq![s@[i as int]]);
                assert(before + (seq![rest[0]] + provision_fixed(s@.skip(i + 1))) =~= (before + c@)
                    + provision_fixed(s@.skip(i + 1)));
            }
            out.append(c);
            i = i + 1;
        }
    }
    assert(s@.skip(n as int) =~= Seq::<char>::empty());
    assert(out@ + Seq::<char>::empty() =~= out@);
    out
}

/// The fixed text of a provision.conf that names /root.
fn provision_update(snap: &Snapshot) -> (r: Option<String>)
    ensures
        r is Some <==> provision_needed(snap@),
        r matches Some(f) ==> f@ == provision_fixed(info(snap@, provision_conf()).text->0),
{
    match snap.text_at(&tmpfiles_path("provision.conf")) {
        Some(t) => {
            let f = provision_fixed_exec(t.as_str());
            if f == t {
                None
            } else {
                Some(f)
            }
        },
        None => None,
    }
}

fn lib_entries_exec(l: &Listing) -> (r: String)
    ensures
        r@ == match l.deep_view() {
            ListingV::Read(items) => lib_entries(items),
            _ => Seq::empty(),
        },
{
    let mut out = String::new();
    match l {
        Listing::Read(items) => {
            let ghost iv = items.deep_view();
            assert(iv.take(0) =~= Seq::<DirItemV>::empty());
            for i in 0..items.len()
                invariant
                    iv == items.deep_view(),
                    l.deep_view() == ListingV::Read(iv),
                    out@ == lib_entries(iv.take(i as int)),
            {
                proof {
                    assert(iv.take(i + 1).drop_last() =~= iv.take(i as int));
                    assert(iv.take(i + 1).last() == iv[i as int]);
                }
                let ghost before = out@;
                match &items[i] {
                    DirItem::Entry(n, Some(NodeKind::Dir)) => {
                        let rpm = owned("rpm");
                        let state = owned("rpm-state");
                        if *n != rpm && *n != state {
                            let line = concat("d /var/lib/", n.as_str());
                            out.append(line.as_str());
                            out.append(" 0755 root root -\n");
                        }
                    },
                    _ => {},
                }
                assert(out@ =~= lib_entries(iv.take(i + 1)));
            }
            assert(iv.take(items.len() as int) =~= iv);
        },
        _ => {},
    }
    out
}

impl Transform for VarTmpfiles {
    open spec fn spec_name(&self) -> Seq<char> {
        "var_tmpfiles"@
    }

    open spec fn spec_phase(&self) -> Phase {
        Phase::PreChroot
    }

    open spec fn spec_probes(&self, snap: Seq<ProbeV>) -> Seq<PathV> {
        seq![var_lib(), var_conf(), home_conf(), provision_conf()]
    }

    open spec fn spec_check(&self, snap: Seq<ProbeV>) -> Result<bool, Seq<char>> {
        Ok(info(snap, var_conf()).exists && info(snap, home_conf()).lstat is None
            && !provision_needed(snap))
    }

    open spec fn spec_plan(&self, rootfs: Seq<char>, snap: Seq<ProbeV>) -> Seq<FsOpV> {
        var_tmpfiles_plan(snap)
    }

    fn name(&self) -> (r: String) {
        owned("var_tmpfiles")
    }

    fn phase(&self) -> (r: Phase) {
        Phase::PreChroot
    }

    fn probes(&self, snap: &Snapshot) -> (r: Vec<RelPath>) {
        let mut r: Vec<RelPath> = Vec::new();
        push_path(&mut r, rel2("var", "lib"));
        push_path(&mut r, tmpfiles_path("bootc-base-var.conf"));
        push_path(&mut r, tmpfiles_path("home.conf"));
        push_path(&mut r, tmpfiles_path("provision.conf"));
        assert(r.deep_view() =~= self.spec_probes(snap@));
        r
    }

    fn check(&self, snap: &Snapshot) -> (r: Result<bool, String>) {
        Ok(snap.exists_at(&tmpfiles_path("bootc-base-var.conf")) && snap.lstat_at(
            &tmpfiles_path("home.conf"),
        ).is_none() && provision_update(snap).is_none())
    }

    fn apply(&self, rootfs: &str, snap: &Snapshot) -> (r: Vec<FsOp>) {
        let mut text = owned(
            "d /var/home 0755 root root -\nd /var/roothome 0700 root root -\nd /var/lib/rpm-state 0755 root root -\n",
        );
        let lib = match snap.get(&rel2("var", "lib")) {
            Some(pr) => lib_entries_exec(&pr.listing),
            None => String::new(),
        };
        text.append(lib.as_str());
        assert(text@ =~= var_conf_text(snap@));
        let mut ops: Vec<FsOp> = Vec::new();
        push_op(
            &mut ops,
            FsOp::CreateDirAll(rel3("usr", "lib", "tmpfiles.d"), owned("creating usr/lib/tmpfiles.d")),
        );
        push_op(
            &mut ops,
            FsOp::WriteFile(
                tmpfiles_path("bootc-base-var.conf"),
                text,
                owned("writing bootc-base-var.conf"),
            ),
        );
        if snap.lstat_at(&tmpfiles_path("home.conf")).is_some() {
            push_op(&mut ops, FsOp::RemoveFile(tmpfiles_path("home.conf"), owned("removing home.conf")));
        }
        match provision_update(snap) {
            Some(f) => {
                push_op(
                    &mut ops,
                    FsOp::WriteFile(tmpfiles_path("provision.conf"), f, owned("writing provision.conf")),
                );
            },
            None => {},
        }
        assert(ops.deep_view() =~= self.spec_plan(rootfs@, snap@));
        ops
    }
}

} // verus!
