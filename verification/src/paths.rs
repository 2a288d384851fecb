//! The lexical path model and the path sandbox.
//!
//! Paths are character sequences with `/` as the separator.  A path is
//! modelled by whether it is rooted (begins with `/`) and by its segments:
//! the maximal `/`-free runs, with empty runs and `.` runs dropped.  The
//! sandbox predicate [`within_root`] holds when two paths are equally
//! rooted and the root's segments are a prefix of the candidate's; it is
//! applied to every filesystem-resolved import target and to every
//! computed output destination, both after lexical normalization.

use vstd::prelude::*;

use crate::errors::SencError;
use crate::text::{from_chars, to_chars};

verus! {

/// The raw `/`-separated runs of `s`, in order.  Splitting the empty
/// sequence gives one empty run, so a sequence with `n` slashes always
/// has `n + 1` runs.
pub open spec fn split_slash(s: Seq<char>) -> Seq<Seq<char>>
    decreases s.len(),
{
    if s.len() == 0 {
        seq![Seq::<char>::empty()]
    } else if s.last() == '/' {
        split_slash(s.drop_last()).push(Seq::<char>::empty())
    } else {
        let r = split_slash(s.drop_last());
        r.drop_last().push(r.last().push(s.last()))
    }
}

/// Whether a raw run counts as a path segment: empty runs (from doubled
/// or trailing slashes) and `.` runs (the current directory) do not.
pub open spec fn keep_seg(seg: Seq<char>) -> bool {
    seg.len() > 0 && seg != seq!['.']
}

/// The segments of a path.
pub open spec fn segments_of(s: Seq<char>) -> Seq<Seq<char>> {
    split_slash(s).filter(|seg: Seq<char>| keep_seg(seg))
}

/// Whether the path begins at the filesystem root.
pub open spec fn is_rooted(s: Seq<char>) -> bool {
    s.len() > 0 && s[0] == '/'
}

/// The sandbox predicate: `candidate` is `root` itself or lies below it,
/// compared lexically by segments.
pub open spec fn within_root(candidate: Seq<char>, root: Seq<char>) -> bool {
    is_rooted(candidate) == is_rooted(root) && segments_of(root).is_prefix_of(
        segments_of(candidate),
    )
}

/// Splitting always yields at least one run.
pub proof fn lemma_split_slash_len(s: Seq<char>)
    ensures
        split_slash(s).len() >= 1,
    decreases s.len(),
{
    if s.len() > 0 {
        lemma_split_slash_len(s.drop_last());
    }
}

/// A vector of character vectors viewed deeply is its elements' views.
proof fn lemma_deep_view_chars(v: Vec<Vec<char>>)
    ensures
        v.deep_view().len() == v@.len(),
        forall|j: int| 0 <= j < v@.len() ==> v.deep_view()[j] == v@[j]@,
{
    assert forall|j: int| 0 <= j < v@.len() implies v.deep_view()[j] == v@[j]@ by {
        assert(v@[j].deep_view() =~= v@[j]@);
    }
}

/// Whether `seg` is a segment to keep, executably.
fn keep_seg_exec(seg: &Vec<char>) -> (r: bool)
    ensures
        r == keep_seg(seg@),
{
    if seg.len() == 0 {
        proof {
            assert(!keep_seg(seg@));
        }
        false
    } else if seg.len() == 1 && seg[0] == '.' {
        proof {
            assert(seg@ =~= seq!['.']);
        }
        false
    } else {
        proof {
            if seg@.len() == 1 {
                assert(seg@[0] != '.');
                assert(seg@ != seq!['.']);
            } else {
                assert(seg@.len() != seq!['.'].len());
            }
        }
        true
    }
}

/// The segments of `p`, executably.
pub fn segments_vec(p: &Vec<char>) -> (segs: Vec<Vec<char>>)
    ensures
        segs.deep_view() == segments_of(p@),
{
    let keep = Ghost(|seg: Seq<char>| keep_seg(seg));
    let mut done: Vec<Vec<char>> = Vec::new();
    let mut cur: Vec<char> = Vec::new();
    let mut i: usize = 0;
    proof {
        assert(p@.subrange(0, 0) =~= Seq::<char>::empty());
        reveal(Seq::filter);
        assert(done.deep_view() =~= split_slash(p@.subrange(0, 0)).drop_last().filter(keep@));
    }
    while i < p.len()
        invariant
            i <= p@.len(),
            keep@ == (|seg: Seq<char>| keep_seg(seg)),
            done.deep_view() == split_slash(p@.subrange(0, i as int)).drop_last().filter(keep@),
            cur@ == split_slash(p@.subrange(0, i as int)).last(),
        decreases p@.len() - i,
    {
        let ghost pre = p@.subrange(0, i as int);
        let ghost r = split_slash(pre);
        proof {
            lemma_split_slash_len(pre);
            assert(p@.subrange(0, i + 1 as int) =~= pre.push(p@[i as int]));
        }
        let c = p[i];
        if c == '/' {
            let ghost r2 = split_slash(pre.push('/'));
            proof {
                assert(pre.push('/').last() == '/');
                assert(pre.push('/').drop_last() =~= pre);
                assert(r2 =~= r.push(Seq::<char>::empty()));
                assert(r2.drop_last() =~= r);
                // One unfolding of filter over the raw runs seen so far.
                reveal(Seq::filter);
                assert(r.drop_last().push(r.last()) =~= r);
                assert(r.filter(keep@) == if keep@(r.last()) {
                    r.drop_last().filter(keep@).push(r.last())
                } else {
                    r.drop_last().filter(keep@)
                });
            }
            if keep_seg_exec(&cur) {
                let ghost dv = done.deep_view();
                let ghost cv = cur@;
                proof {
                    lemma_deep_view_chars(done);
                }
                done.push(cur);
                proof {
                    lemma_deep_view_chars(done);
                    assert(done.deep_view() =~= dv.push(cv));
                    assert(done.deep_view() =~= r.filter(keep@));
                }
            } else {
                proof {
                    assert(done.deep_view() =~= r.filter(keep@));
                }
            }
            cur = Vec::new();
        } else {
            let ghost r2 = split_slash(pre.push(c));
            proof {
                assert(pre.push(c).last() == c);
                assert(pre.push(c).drop_last() =~= pre);
                assert(r2 =~= r.drop_last().push(r.last().push(c)));
                assert(r2.drop_last() =~= r.drop_last());
            }
            cur.push(c);
        }
        i = i + 1;
    }
    let ghost whole = p@;
    proof {
        assert(p@.subrange(0, p@.len() as int) =~= whole);
        lemma_split_slash_len(whole);
        let r = split_slash(whole);
        reveal(Seq::filter);
        assert(r.drop_last().push(r.last()) =~= r);
        assert(r.filter(keep@) == if keep@(r.last()) {
            r.drop_last().filter(keep@).push(r.last())
        } else {
            r.drop_last().filter(keep@)
        });
    }
    if keep_seg_exec(&cur) {
        let ghost dv = done.deep_view();
        let ghost cv = cur@;
        proof {
            lemma_deep_view_chars(done);
        }
        done.push(cur);
        proof {
            lemma_deep_view_chars(done);
            assert(done.deep_view() =~= dv.push(cv));
            assert(done.deep_view() =~= segments_of(p@));
        }
    } else {
        proof {
            assert(done.deep_view() =~= segments_of(p@));
        }
    }
    done
}

/// Whether two character vectors hold the same characters.
pub fn chars_eq(a: &Vec<char>, b: &Vec<char>) -> (r: bool)
    ensures
        r == (a@ == b@),
{
    if a.len() != b.len() {
        return false;
    }
    let mut i: usize = 0;
    while i < a.len()
        invariant
            a@.len() == b@.len(),
            i <= a@.len(),
            forall|j: int| 0 <= j < i ==> a@[j] == b@[j],
        decreases a@.len() - i,
    {
        if a[i] != b[i] {
            return false;
        }
        i = i + 1;
    }
    proof {
        assert(a@ =~= b@);
    }
    true
}

/// Whether `candidate` is `root` or lies below it, executably.
pub fn is_within_root(candidate: &Vec<char>, root: &Vec<char>) -> (r: bool)
    ensures
        r == within_root(candidate@, root@),
{
    let cand_rooted = candidate.len() > 0 && candidate[0] == '/';
    let root_rooted = root.len() > 0 && root[0] == '/';
    if cand_rooted != root_rooted {
        return false;
    }
    let cand_segs = segments_vec(candidate);
    let root_segs = segments_vec(root);
    proof {
        lemma_deep_view_chars(cand_segs);
        lemma_deep_view_chars(root_segs);
    }
    if root_segs.len() > cand_segs.len() {
        return false;
    }
    let mut i: usize = 0;
    while i < root_segs.len()
        invariant
            root_segs@.len() <= cand_segs@.len(),
            i <= root_segs@.len(),
            cand_segs.deep_view() == segments_of(candidate@),
            root_segs.deep_view() == segments_of(root@),
            forall|j: int| 0 <= j < i ==> root_segs.deep_view()[j] == cand_segs.deep_view()[j],
        decreases root_segs@.len() - i,
    {
        if !chars_eq(&root_segs[i], &cand_segs[i]) {
            proof {
                lemma_deep_view_chars(cand_segs);
                lemma_deep_view_chars(root_segs);
                assert(root_segs.deep_view()[i as int] != cand_segs.deep_view()[i as int]);
            }
            return false;
        }
        i = i + 1;
    }
    proof {
        assert(segments_of(root@) =~= segments_of(candidate@).subrange(
            0,
            segments_of(root@).len() as int,
        ));
    }
    true
}

/// Everything before the last `/` of `s`: the enclosing directory.  A
/// path without separators has the empty parent; the parent of a direct
/// child of the root is `/`.
pub open spec fn parent_of(s: Seq<char>) -> Seq<char>
    decreases s.len(),
{
    if s.len() == 0 {
        Seq::empty()
    } else if s.last() == '/' {
        if s.len() == 1 {
            seq!['/']
        } else {
            s.drop_last()
        }
    } else {
        parent_of(s.drop_last())
    }
}

/// Everything after the last `/` of `s`: the file name, the whole of `s`
/// when it has no separator.
pub open spec fn file_name_of(s: Seq<char>) -> Seq<char>
    decreases s.len(),
{
    if s.len() == 0 {
        s
    } else if s.last() == '/' {
        Seq::<char>::empty()
    } else {
        file_name_of(s.drop_last()).push(s.last())
    }
}

/// Whether the file name has an extension: a `.` anywhere past its first
/// character (a lone leading `.` marks a hidden file, not an extension).
pub open spec fn has_extension(name: Seq<char>) -> bool {
    exists|i: int| 1 <= i < name.len() && name[i] == '.'
}

/// `s` up to (excluding) its last `.`.
pub open spec fn chop_after_last_dot(s: Seq<char>) -> Seq<char>
    decreases s.len(),
{
    if s.len() == 0 {
        s
    } else if s.last() == '.' {
        s.drop_last()
    } else {
        chop_after_last_dot(s.drop_last())
    }
}

/// `s` after its last `.`.
pub open spec fn after_last_dot(s: Seq<char>) -> Seq<char>
    decreases s.len(),
{
    if s.len() == 0 {
        s
    } else if s.last() == '.' {
        Seq::<char>::empty()
    } else {
        after_last_dot(s.drop_last()).push(s.last())
    }
}

/// The file name without its extension.
pub open spec fn stem_of(name: Seq<char>) -> Seq<char> {
    if has_extension(name) {
        chop_after_last_dot(name)
    } else {
        name
    }
}

/// The extension of the file name, when it has one.
pub open spec fn extension_of(name: Seq<char>) -> Option<Seq<char>> {
    if has_extension(name) {
        Some(after_last_dot(name))
    } else {
        None
    }
}

/// Segments joined with `/` between them.
pub open spec fn join_segs(segs: Seq<Seq<char>>) -> Seq<char>
    decreases segs.len(),
{
    if segs.len() == 0 {
        Seq::<char>::empty()
    } else if segs.len() == 1 {
        segs[0]
    } else {
        join_segs(segs.drop_last()) + seq!['/'] + segs.last()
    }
}

/// The path of `p` relative to `root`: `p`'s segments past those of
/// `root`, joined.  Meaningful when `within_root(p, root)` holds.
pub open spec fn rel_to_root(p: Seq<char>, root: Seq<char>) -> Seq<char> {
    join_segs(segments_of(p).skip(segments_of(root).len() as int))
}

/// The stack of segments left after resolving `.` and `..` lexically:
/// `..` pops a preceding normal segment, is dropped at the start of a
/// rooted path, and is kept at the start of an unrooted one.
pub open spec fn clean_stack(segs: Seq<Seq<char>>, rooted: bool) -> Seq<Seq<char>>
    decreases segs.len(),
{
    if segs.len() == 0 {
        Seq::<Seq<char>>::empty()
    } else {
        let prev = clean_stack(segs.drop_last(), rooted);
        let last = segs.last();
        if last == seq!['.', '.'] {
            if prev.len() > 0 && prev.last() != seq!['.', '.'] {
                prev.drop_last()
            } else if prev.len() == 0 && rooted {
                prev
            } else {
                prev.push(last)
            }
        } else {
            prev.push(last)
        }
    }
}

/// Lexical normalization: collapse slashes, drop `.` segments, resolve
/// `..` segments against what precedes them.  An empty result is `/` for
/// a rooted path and `.` for an unrooted one.
pub open spec fn cleaned_path(s: Seq<char>) -> Seq<char> {
    let stack = clean_stack(segments_of(s), is_rooted(s));
    if stack.len() == 0 {
        if is_rooted(s) {
            seq!['/']
        } else {
            seq!['.']
        }
    } else if is_rooted(s) {
        seq!['/'] + join_segs(stack)
    } else {
        join_segs(stack)
    }
}

/// Relies on `path_clean::clean`: the lexical `.`/`..` normalization
/// described by [`cleaned_path`], performed without touching the
/// filesystem.
#[verifier::external_body]
pub(crate) fn clean_path(p: &str) -> (r: String)
    ensures
        r@ == cleaned_path(p@),
{
    path_clean::clean(p).to_string_lossy().into_owned()
}

/// Normalizes a path lexically: slashes collapse, `.` segments drop, and
/// `..` segments resolve against what precedes them.
pub fn normalize_path(p: &str) -> (r: String)
    ensures
        r@ == cleaned_path(p@),
{
    clean_path(p)
}

/// The enclosing directory of `p`, executably.
pub fn parent_dir(p: &str) -> (r: String)
    ensures
        r@ == parent_of(p@),
{
    let mut v = to_chars(p);
    while v.len() > 0 && v[v.len() - 1] != '/'
        invariant
            parent_of(v@) == parent_of(p@),
        decreases v@.len(),
    {
        v.pop();
    }
    if v.len() == 0 {
        from_chars(&v)
    } else if v.len() == 1 {
        proof {
            assert(v@ =~= seq!['/']);
        }
        from_chars(&v)
    } else {
        v.pop();
        from_chars(&v)
    }
}

/// The file name of `p`, executably.
pub fn file_name(p: &str) -> (r: String)
    ensures
        r@ == file_name_of(p@),
{
    let v = to_chars(p);
    let mut i: usize = v.len();
    proof {
        assert(v@.subrange(0, v@.len() as int) =~= v@);
        assert(file_name_of(v@) + v@.skip(v@.len() as int) =~= file_name_of(v@));
    }
    while i > 0 && v[i - 1] != '/'
        invariant
            i <= v@.len(),
            file_name_of(v@) == file_name_of(v@.subrange(0, i as int)) + v@.skip(i as int),
        decreases i,
    {
        proof {
            let pre = v@.subrange(0, i as int);
            let pre1 = v@.subrange(0, i - 1 as int);
            assert(pre.last() != '/');
            assert(pre.drop_last() =~= pre1);
            assert(file_name_of(pre) == file_name_of(pre1).push(v@[i - 1 as int]));
            assert(file_name_of(pre1).push(v@[i - 1 as int]) + v@.skip(i as int) =~= file_name_of(
                pre1,
            ) + v@.skip(i - 1 as int));
        }
        i = i - 1;
    }
    let mut out: Vec<char> = Vec::new();
    let mut j: usize = i;
    while j < v.len()
        invariant
            i <= j <= v@.len(),
            out@ == v@.subrange(i as int, j as int),
        decreases v@.len() - j,
    {
        out.push(v[j]);
        proof {
            assert(out@ =~= v@.subrange(i as int, j + 1 as int));
        }
        j = j + 1;
    }
    proof {
        let pre = v@.subrange(0, i as int);
        if i == 0 {
            assert(pre =~= Seq::<char>::empty());
            assert(file_name_of(pre) =~= Seq::<char>::empty());
        } else {
            assert(pre.last() == '/');
            assert(file_name_of(pre) =~= Seq::<char>::empty());
        }
        assert(out@ =~= v@.skip(i as int));
        assert(file_name_of(v@) =~= out@);
    }
    from_chars(&out)
}

/// The name without its extension, executably.
pub fn file_stem(name: &str) -> (r: String)
    ensures
        r@ == stem_of(name@),
{
    let v = to_chars(name);
    let mut has_ext = false;
    let mut k: usize = 1;
    while k < v.len()
        invariant
            1 <= k <= v@.len() || v@.len() == 0,
            v@.len() == 0 ==> k == 1,
            has_ext == exists|i: int| 1 <= i < k && i < v@.len() && v@[i] == '.',
        decreases v@.len() - k,
    {
        if v[k] == '.' {
            has_ext = true;
        }
        k = k + 1;
    }
    proof {
        if v@.len() == 0 {
            assert(!has_ext);
            assert(!has_extension(v@));
        } else {
            assert(k == v@.len());
            if has_ext {
                let i = choose|i: int| 1 <= i < k && i < v@.len() && v@[i] == '.';
                assert(1 <= i < v@.len() && v@[i] == '.');
                assert(has_extension(v@));
            }
            if has_extension(v@) {
                let i = choose|i: int| 1 <= i < v@.len() && v@[i] == '.';
                assert(1 <= i < k && i < v@.len() && v@[i] == '.');
            }
        }
        assert(has_ext == has_extension(v@));
    }
    if !has_ext {
        return from_chars(&v);
    }
    let mut w = v;
    while w.len() > 0 && w[w.len() - 1] != '.'
        invariant
            chop_after_last_dot(w@) == chop_after_last_dot(name@),
        decreases w@.len(),
    {
        w.pop();
    }
    if w.len() > 0 {
        w.pop();
    }
    proof {
        assert(w@ =~= chop_after_last_dot(name@));
    }
    from_chars(&w)
}

/// The extension of the file name `name`, executably.
pub fn file_extension(name: &str) -> (r: Option<String>)
    ensures
        match r {
            Some(e) => extension_of(name@) == Some(e@),
            None => extension_of(name@) is None,
        },
{
    let v = to_chars(name);
    let mut i: usize = v.len();
    proof {
        assert(v@.subrange(0, v@.len() as int) =~= v@);
        assert(after_last_dot(v@) + v@.skip(v@.len() as int) =~= after_last_dot(v@));
    }
    while i > 0 && v[i - 1] != '.'
        invariant
            i <= v@.len(),
            after_last_dot(v@) == after_last_dot(v@.subrange(0, i as int)) + v@.skip(i as int),
            forall|j: int| i <= j < v@.len() ==> v@[j] != '.',
        decreases i,
    {
        proof {
            let pre = v@.subrange(0, i as int);
            let pre1 = v@.subrange(0, i - 1 as int);
            assert(pre.last() != '.');
            assert(pre.drop_last() =~= pre1);
            assert(after_last_dot(pre) == after_last_dot(pre1).push(v@[i - 1 as int]));
            assert(after_last_dot(pre1).push(v@[i - 1 as int]) + v@.skip(i as int)
                =~= after_last_dot(pre1) + v@.skip(i - 1 as int));
        }
        i = i - 1;
    }
    if i <= 1 {
        proof {
            assert(!has_extension(v@));
        }
        return None;
    }
    proof {
        assert(v@[i - 1 as int] == '.');
        assert(has_extension(v@));
        let pre = v@.subrange(0, i as int);
        assert(pre.last() == '.');
        assert(after_last_dot(pre) =~= Seq::<char>::empty());
        assert(after_last_dot(v@) =~= v@.skip(i as int));
    }
    let mut out: Vec<char> = Vec::new();
    let mut j: usize = i;
    while j < v.len()
        invariant
            i <= j <= v@.len(),
            out@ == v@.subrange(i as int, j as int),
        decreases v@.len() - j,
    {
        out.push(v[j]);
        proof {
            assert(out@ =~= v@.subrange(i as int, j + 1 as int));
        }
        j = j + 1;
    }
    proof {
        assert(out@ =~= v@.skip(i as int));
    }
    Some(from_chars(&out))
}

/// `a` and `b` joined with a single separator.
pub fn join_path(a: &str, b: &str) -> (r: String)
    ensures
        r@ == a@ + seq!['/'] + b@,
{
    let mut s = String::from_str(a);
    proof {
        reveal_strlit("/");
        assert("/"@ =~= seq!['/']);
    }
    s.append("/");
    s.append(b);
    proof {
        assert(s@ =~= a@ + seq!['/'] + b@);
    }
    s
}

/// The path of `p` relative to `base`, or `None` when `p` does not lie
/// below `base`.  The segments of `p` past those of `base`, joined with
/// `/`; `p == base` gives the empty relative path.
pub fn relative_path(base: &str, p: &str) -> (r: Option<String>)
    ensures
        r is Some <==> within_root(p@, base@),
        r matches Some(s) ==> s@ == rel_to_root(p@, base@),
{
    let pc = to_chars(p);
    let bc = to_chars(base);
    if !is_within_root(&pc, &bc) {
        return None;
    }
    let segs = segments_vec(&pc);
    let bsegs = segments_vec(&bc);
    proof {
        lemma_deep_view_chars(segs);
        lemma_deep_view_chars(bsegs);
        assert(segments_of(base@).len() <= segments_of(p@).len());
    }
    let k = bsegs.len();
    let ghost dv = segs.deep_view();
    let mut s = String::new();
    let mut i: usize = k;
    proof {
        assert(dv.subrange(k as int, k as int) =~= Seq::<Seq<char>>::empty());
    }
    while i < segs.len()
        invariant
            k <= i <= segs@.len(),
            dv == segs.deep_view(),
            dv == segments_of(p@),
            k == segments_of(base@).len(),
            s@ == join_segs(dv.subrange(k as int, i as int)),
        decreases segs@.len() - i,
    {
        let ghost sub = dv.subrange(k as int, i as int);
        if i > k {
            proof {
                reveal_strlit("/");
                assert("/"@ =~= seq!['/']);
            }
            s.append("/");
        }
        let piece = from_chars(&segs[i]);
        s.append(piece.as_str());
        proof {
            lemma_deep_view_chars(segs);
            assert(piece@ == dv[i as int]);
            assert(dv.subrange(k as int, i + 1 as int) =~= sub.push(dv[i as int]));
            if sub.len() == 0 {
                assert(join_segs(sub.push(dv[i as int])) == dv[i as int]);
                assert(s@ =~= dv[i as int]);
            } else {
                assert(sub.push(dv[i as int]).drop_last() =~= sub);
                assert(join_segs(sub.push(dv[i as int])) == join_segs(sub) + seq!['/'] + dv[
                    i as int]);
                assert(s@ =~= join_segs(sub) + seq!['/'] + dv[i as int]);
            }
        }
        i = i + 1;
    }
    proof {
        assert(dv.subrange(k as int, dv.len() as int) =~= segments_of(p@).skip(
            segments_of(base@).len() as int,
        ));
    }
    Some(s)
}

/// The containment check that guards every resolved import target and
/// every computed output destination: succeeds exactly when `file_path`
/// is `projectroot` or lies below it, lexically.
pub fn assert_file_path_in_projectroot(file_path: &str, projectroot: &str) -> (r: Result<
    (),
    SencError,
>)
    ensures
        r is Ok <==> within_root(file_path@, projectroot@),
        r is Err ==> r == Result::<(), SencError>::Err(SencError::OutOfBounds),
{
    let fp = to_chars(file_path);
    let root = to_chars(projectroot);
    if is_within_root(&fp, &root) {
        Ok(())
    } else {
        Err(SencError::OutOfBounds)
    }
}

} // verus!
