//! Plain text in configuration files: finding a fragment, and lists
//! written out item by item.

use vstd::prelude::*;
use vstd::string::*;

use crate::rootfs::owned;

verus! {

/// Whether `pat` occurs in `s` at position `i`.
pub open spec fn occurs_at(s: Seq<char>, pat: Seq<char>, i: int) -> bool {
    0 <= i && i + pat.len() <= s.len() && s.subrange(i, i + pat.len()) == pat
}

/// Whether `pat` occurs in `s`.
pub open spec fn contains_text(s: Seq<char>, pat: Seq<char>) -> bool {
    exists|i: int| occurs_at(s, pat, i)
}

/// Whether `pat` occurs in `s` at position `i`.
fn occurs_at_exec(s: &str, pat: &str, i: usize, n: usize, k: usize) -> (r: bool)
    requires
        n == s@.len(),
        k == pat@.len(),
        i <= n,
    ensures
        r == occurs_at(s@, pat@, i as int),
{
    if k > n - i {
        return false;
    }
    owned(s.substring_char(i, i + k)) == owned(pat)
}

/// Whether `pat` occurs in `s`.
pub fn contains_text_exec(s: &str, pat: &str) -> (r: bool)
    ensures
        r == contains_text(s@, pat@),
{
    let n = s.unicode_len();
    let k = pat.unicode_len();
    let mut i: usize = 0;
    loop
        invariant
            n == s@.len(),
            k == pat@.len(),
            i <= n,
            forall|j: int| 0 <= j < i ==> !occurs_at(s@, pat@, j),
        ensures
            forall|j: int| 0 <= j <= n ==> !occurs_at(s@, pat@, j),
        decreases n - i,
    {
        if occurs_at_exec(s, pat, i, n, k) {
            return true;
        }
        if i == n {
            break;
        }
        i = i + 1;
    }
    assert forall|j: int| !occurs_at(s@, pat@, j) by {
        if j > n {
            assert(!occurs_at(s@, pat@, j));
        }
    }
    false
}

/// The items in order, each between `pre` and `post`.
pub open spec fn wrapped_all(items: Seq<Seq<char>>, pre: Seq<char>, post: Seq<char>) -> Seq<char>
    decreases items.len(),
{
    if items.len() == 0 {
        Seq::empty()
    } else {
        wrapped_all(items.drop_last(), pre, post) + pre + items.last() + post
    }
}

/// The items in order, each between `pre` and `post`.
pub fn wrapped_all_exec(items: &Vec<String>, pre: &str, post: &str) -> (r: String)
    ensures
        r@ == wrapped_all(items.deep_view(), pre@, post@),
{
    let ghost iv = items.deep_view();
    let mut out = String::new();
    assert(iv.take(0) =~= Seq::<Seq<char>>::empty());
    for i in 0..items.len()
        invariant
            iv == items.deep_view(),
            out@ == wrapped_all(iv.take(i as int), pre@, post@),
    {
        proof {
            assert(iv.take(i + 1).drop_last() =~= iv.take(i as int));
            assert(iv.take(i + 1).last() == iv[i as int]);
        }
        out.append(pre);
        out.append(items[i].as_str());
        out.append(post);
        assert(out@ =~= wrapped_all(iv.take(i + 1), pre@, post@));
    }
    assert(iv.take(items.len() as int) =~= iv);
    out
}

/// Whether `line` stands in `s` at the start of a line.
pub open spec fn has_line(s: Seq<char>, line: Seq<char>) -> bool {
    exists|p: int| occurs_at(s, line, p) && (p == 0 || s[p - 1] == '\n')
}

/// Where item `k` stands, between `pre` and `post`, in the items written
/// out; what comes before it ends with `post`.
pub proof fn lemma_wrapped_item(items: Seq<Seq<char>>, pre: Seq<char>, post: Seq<char>, k: int) -> (p: int)
    requires
        0 <= k < items.len(),
        post.len() > 0,
    ensures
        occurs_at(wrapped_all(items, pre, post), pre + items[k] + post, p),
        p == 0 || wrapped_all(items, pre, post)[p - 1] == post.last(),
    decreases items.len(),
{
    let init = items.drop_last();
    let w = wrapped_all(items, pre, post);
    let piece = pre + items[k] + post;
    if k < items.len() - 1 {
        assert(init[k] == items[k]);
        let p = lemma_wrapped_item(init, pre, post, k);
        let wi = wrapped_all(init, pre, post);
        assert(w == wi + pre + items.last() + post);
        assert(w.subrange(p, p + piece.len()) =~= wi.subrange(p, p + piece.len()));
        if p > 0 {
            assert(w[p - 1] == wi[p - 1]);
        }
        p
    } else {
        let wi = wrapped_all(init, pre, post);
        let p = wi.len() as int;
        assert(items.last() == items[k]);
        assert(w =~= wi + piece);
        assert(w.subrange(p, p + piece.len()) =~= piece);
        if p > 0 {
            lemma_wrapped_ends(init, pre, post);
            assert(w[p - 1] == wi[p - 1]);
        }
        p
    }
}

/// Written-out items are empty or end with `post`.
pub proof fn lemma_wrapped_ends(items: Seq<Seq<char>>, pre: Seq<char>, post: Seq<char>)
    requires
        post.len() > 0,
    ensures
        wrapped_all(items, pre, post).len() == 0 || wrapped_all(items, pre, post).last() == post.last(),
    decreases items.len(),
{
    if items.len() > 0 {
        lemma_wrapped_ends(items.drop_last(), pre, post);
    }
}

} // verus!
