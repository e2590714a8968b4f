use crate::errors::{VibeError, VibeErrorView};
use crate::text::{
    append_chars, chars_of, copy_chars, same_chars, slice_of, starts_with, starts_with_chars,
    string_of, strings_view, lines_view, strip_trailing, strip_trailing_chars,
};
use vstd::prelude::*;

verus! {

/// The characters that part the segments of a path.
pub open spec fn is_separator(c: char) -> bool {
    c == '/' || c == '\\'
}

/// The path with every separator written as a slash.
pub open spec fn normalized(p: Seq<char>) -> Seq<char> {
    p.map_values(
        |c: char|
            if c == '\\' {
                '/'
            } else {
                c
            },
    )
}

/// An allowlist entry as it is compared: separators as slashes, none at the end.
pub open spec fn entry_prefix(entry: Seq<char>) -> Seq<char> {
    strip_trailing(normalized(entry), '/')
}

/// The entry admits the path: they are the same text, or the entry, taken as
/// a prefix, ends in the path where a segment ends.
pub open spec fn entry_admits(entry: Seq<char>, rel: Seq<char>) -> bool {
    entry == rel || {
        let e = entry_prefix(entry);
        let r = normalized(rel);
        starts_with(r, e) && (r.len() == e.len() || r[e.len() as int] == '/')
    }
}

/// Some entry of the allowlist admits the path.
pub open spec fn allowlist_admits(allowlist: Seq<Seq<char>>, rel: Seq<char>) -> bool {
    exists|k: int| 0 <= k < allowlist.len() && entry_admits(#[trigger] allowlist[k], rel)
}

/// A letter of the basic Latin alphabet.
pub open spec fn is_ascii_letter(c: char) -> bool {
    ('a' <= c && c <= 'z') || ('A' <= c && c <= 'Z')
}

/// The path names its own root: it starts with a separator or with a drive
/// letter and a colon.
pub open spec fn is_anchored(p: Seq<char>) -> bool {
    (p.len() >= 1 && is_separator(p[0])) || (p.len() >= 2 && is_ascii_letter(p[0]) && p[1] == ':')
}

/// The number of characters of `s` before its first separator.
pub open spec fn segment_end(s: Seq<char>) -> int
    decreases s.len(),
{
    if s.len() == 0 || is_separator(s[0]) {
        0
    } else {
        1 + segment_end(s.skip(1))
    }
}

/// The segments of a path: what stands between its separators.
pub open spec fn segments_of(s: Seq<char>) -> Seq<Seq<char>>
    decreases s.len(),
{
    let k = segment_end(s);
    if 0 <= k < s.len() {
        seq![s.take(k)] + segments_of(s.skip(k + 1))
    } else {
        seq![s]
    }
}

/// The segment that stands for the directory itself.
pub open spec fn dot() -> Seq<char> {
    seq!['.']
}

/// The segment that stands for the parent directory.
pub open spec fn dot_dot() -> Seq<char> {
    seq!['.', '.']
}

/// A segment that changes nothing: an empty one or the directory itself.
pub open spec fn is_idle(seg: Seq<char>) -> bool {
    seg.len() == 0 || seg == dot()
}

/// A segment that names an entry of a directory.
pub open spec fn is_plain(seg: Seq<char>) -> bool {
    !is_idle(seg) && seg != dot_dot()
}

/// The names below the root after the first `n` segments: a plain segment
/// goes on top, a parent segment takes the top away. None once a parent
/// segment came where nothing was left to take: the path has left the root.
pub open spec fn walk(segs: Seq<Seq<char>>, n: int) -> Option<Seq<Seq<char>>>
    decreases n,
{
    if n <= 0 {
        Some(Seq::empty())
    } else {
        match walk(segs, n - 1) {
            None => None,
            Some(stack) => {
                let seg = segs[n - 1];
                if is_idle(seg) {
                    Some(stack)
                } else if seg == dot_dot() {
                    if stack.len() == 0 {
                        None
                    } else {
                        Some(stack.drop_last())
                    }
                } else {
                    Some(stack.push(seg))
                }
            },
        }
    }
}

/// The names below the root that a relative path leads to, if it stays
/// under the root all the way.
pub open spec fn descent(rel: Seq<char>) -> Option<Seq<Seq<char>>> {
    walk(segments_of(rel), segments_of(rel).len() as int)
}

/// `base` and one more name below it.
pub open spec fn child_of(base: Seq<char>, name: Seq<char>) -> Seq<char> {
    if base.len() == 0 || is_separator(base.last()) {
        base + name
    } else {
        base.push('/') + name
    }
}

/// The root and the names below it, as one path.
pub open spec fn join_under(root: Seq<char>, names: Seq<Seq<char>>) -> Seq<char>
    decreases names.len(),
{
    if names.len() == 0 {
        root
    } else {
        child_of(join_under(root, names.drop_last()), names.last())
    }
}

/// A relative path is admissible when it is not empty, the allowlist admits
/// it, it names no root of its own and never leaves the root it is taken
/// under.
pub open spec fn admissible(rel: Seq<char>, allowlist: Seq<Seq<char>>) -> bool {
    &&& rel.len() > 0
    &&& allowlist_admits(allowlist, rel)
    &&& !is_anchored(rel)
    &&& descent(rel) is Some
}

/// Where an admissible relative path leads under the root; none for a path
/// that is not admissible.
pub open spec fn resolved(root: Seq<char>, rel: Seq<char>, allowlist: Seq<Seq<char>>) -> Option<
    Seq<char>,
> {
    if admissible(rel, allowlist) {
        Some(join_under(root, descent(rel)->0))
    } else {
        None
    }
}

/// Plain segments up to `n`, less parent segments up to `n`.
pub open spec fn net_depth(segs: Seq<Seq<char>>, n: int) -> int
    decreases n,
{
    if n <= 0 {
        0
    } else if is_idle(segs[n - 1]) {
        net_depth(segs, n - 1)
    } else if segs[n - 1] == dot_dot() {
        net_depth(segs, n - 1) - 1
    } else {
        net_depth(segs, n - 1) + 1
    }
}

/// No character of the segment is a separator.
pub open spec fn separator_free(seg: Seq<char>) -> bool {
    forall|i: int| 0 <= i < seg.len() ==> !is_separator(#[trigger] seg[i])
}

/// Every segment is free of separators.
pub open spec fn all_separator_free(segs: Seq<Seq<char>>) -> bool {
    forall|k: int| 0 <= k < segs.len() ==> separator_free(#[trigger] segs[k])
}

/// Every name is a plain segment without a separator in it: the name of
/// one entry of a directory.
pub open spec fn all_plain(names: Seq<Seq<char>>) -> bool {
    forall|k: int| 0 <= k < names.len() ==> is_plain(#[trigger] names[k]) && separator_free(names[k])
}

/// `out` lies under `root`: it is the root followed by names of directory
/// entries, one below the other, none of which can lead up again.
pub open spec fn lies_under(root: Seq<char>, out: Seq<char>) -> bool {
    exists|names: Seq<Seq<char>>| all_plain(names) && out == join_under(root, names)
}

proof fn lemma_segment_end_bounds(s: Seq<char>)
    ensures
        0 <= segment_end(s) <= s.len(),
        forall|j: int| 0 <= j < segment_end(s) ==> !is_separator(s[j]),
    decreases s.len(),
{
    if s.len() > 0 && !is_separator(s[0]) {
        lemma_segment_end_bounds(s.skip(1));
        assert forall|j: int| 0 <= j < segment_end(s) implies !is_separator(s[j]) by {
            if j > 0 {
                assert(s.skip(1)[j - 1] == s[j]);
            }
        }
    }
}

/// No segment of a path holds a separator.
pub proof fn lemma_segments_are_separator_free(s: Seq<char>)
    ensures
        all_separator_free(segments_of(s)),
    decreases s.len(),
{
    lemma_segment_end_bounds(s);
    let k = segment_end(s);
    if 0 <= k < s.len() {
        lemma_segments_are_separator_free(s.skip(k + 1));
        let rest = segments_of(s.skip(k + 1));
        let all = segments_of(s);
        assert forall|q: int| 0 <= q < all.len() implies separator_free(#[trigger] all[q]) by {
            if q > 0 {
                assert(all[q] == rest[q - 1]);
            } else {
                assert(all[0] == s.take(k));
            }
        }
    } else {
        assert(segments_of(s)[0] == s);
    }
}

proof fn lemma_walk(segs: Seq<Seq<char>>, n: int)
    requires
        0 <= n <= segs.len(),
        all_separator_free(segs),
    ensures
        walk(segs, n) is Some ==> all_plain(walk(segs, n)->0) && walk(segs, n)->0.len()
            == net_depth(segs, n),
        walk(segs, n) is None ==> forall|m: int| n <= m ==> walk(segs, m) is None,
    decreases n,
{
    if n > 0 {
        lemma_walk(segs, n - 1);
    }
    if walk(segs, n) is None {
        assert forall|m: int| n <= m implies walk(segs, m) is None by {
            lemma_walk_stays_out(segs, n, m);
        }
    }
}

proof fn lemma_walk_stays_out(segs: Seq<Seq<char>>, n: int, m: int)
    requires
        n <= m,
        walk(segs, n) is None,
    ensures
        walk(segs, m) is None,
    decreases m - n,
{
    if n < m {
        lemma_walk_stays_out(segs, n, m - 1);
    }
}

proof fn lemma_join_starts_with_root(root: Seq<char>, names: Seq<Seq<char>>)
    ensures
        starts_with(join_under(root, names), root),
    decreases names.len(),
{
    if names.len() > 0 {
        lemma_join_starts_with_root(root, names.drop_last());
        let base = join_under(root, names.drop_last());
        let out = join_under(root, names);
        assert(base.take(root.len() as int) == root);
        assert(out.take(root.len() as int) == base.take(root.len() as int));
    } else {
        assert(root.take(root.len() as int) == root);
    }
}

/// The sandbox: whatever a relative path holds, what it resolves to lies
/// under the root, and starts with the root as it was given.
pub proof fn law_resolved_lies_under_root(root: Seq<char>, rel: Seq<char>, allowlist: Seq<Seq<char>>)
    ensures
        resolved(root, rel, allowlist) is Some ==> lies_under(root, resolved(root, rel, allowlist)->0)
            && starts_with(resolved(root, rel, allowlist)->0, root),
{
    if resolved(root, rel, allowlist) is Some {
        let segs = segments_of(rel);
        lemma_segments_are_separator_free(rel);
        lemma_walk(segs, segs.len() as int);
        lemma_join_starts_with_root(root, descent(rel)->0);
    }
}

/// A relative path whose parent segments, at some point, outnumber the
/// plain segments before them resolves to nothing.
pub proof fn law_escape_is_rejected(root: Seq<char>, rel: Seq<char>, allowlist: Seq<Seq<char>>, n: int)
    requires
        0 <= n <= segments_of(rel).len(),
        net_depth(segments_of(rel), n) < 0,
    ensures
        resolved(root, rel, allowlist) is None,
{
    let segs = segments_of(rel);
    lemma_segments_are_separator_free(rel);
    lemma_walk(segs, n);
    lemma_walk(segs, segs.len() as int);
}


proof fn lemma_segment_end(s: Seq<char>, k: int)
    requires
        0 <= k <= s.len(),
        forall|j: int| 0 <= j < k ==> !is_separator(s[j]),
        k < s.len() ==> is_separator(s[k]),
    ensures
        segment_end(s) == k,
    decreases k,
{
    if k > 0 {
        lemma_segment_end(s.skip(1), k - 1);
    }
}

/// The path with every separator written as a slash.
pub fn normalize_chars(v: &Vec<char>) -> (r: Vec<char>)
    ensures
        r@ == normalized(v@),
{
    let mut r: Vec<char> = Vec::new();
    let mut i: usize = 0;
    while i < v.len()
        invariant
            i <= v.len(),
            r@ == normalized(v@).take(i as int),
        decreases v.len() - i,
    {
        let c = v[i];
        r.push(
            if c == '\\' {
                '/'
            } else {
                c
            },
        );
        assert(normalized(v@).take(i + 1) == normalized(v@).take(i as int).push(normalized(v@)[i as int]));
        i += 1;
    }
    assert(normalized(v@).take(v.len() as int) == normalized(v@));
    r
}

fn entry_admits_chars(entry: &Vec<char>, rel: &Vec<char>) -> (r: bool)
    ensures
        r == entry_admits(entry@, rel@),
{
    if same_chars(entry, rel) {
        return true;
    }
    let e = strip_trailing_chars(&normalize_chars(entry), '/');
    let n = normalize_chars(rel);
    starts_with_chars(&n, &e) && (n.len() == e.len() || n[e.len()] == '/')
}

/// Whether some entry of the allowlist admits the path.
pub fn allowlist_admits_path(allowlist: &[String], rel: &str) -> (r: bool)
    ensures
        r == allowlist_admits(strings_view(allowlist@), rel@),
{
    let path = chars_of(rel);
    let mut k: usize = 0;
    while k < allowlist.len()
        invariant
            k <= allowlist.len(),
            path@ == rel@,
            forall|q: int| 0 <= q < k ==> !entry_admits(#[trigger] strings_view(allowlist@)[q], rel@),
        decreases allowlist.len() - k,
    {
        assert(strings_view(allowlist@)[k as int] == allowlist@[k as int]@);
        let entry = chars_of(allowlist[k].as_str());
        if entry_admits_chars(&entry, &path) {
            return true;
        }
        k += 1;
    }
    false
}

fn is_anchored_chars(p: &Vec<char>) -> (r: bool)
    ensures
        r == is_anchored(p@),
{
    if p.len() >= 1 && (p[0] == '/' || p[0] == '\\') {
        return true;
    }
    p.len() >= 2 && (('a' <= p[0] && p[0] <= 'z') || ('A' <= p[0] && p[0] <= 'Z')) && p[1] == ':'
}

/// The segments of a path.
fn split_segments(s: &Vec<char>) -> (r: Vec<Vec<char>>)
    ensures
        lines_view(r@) == segments_of(s@),
{
    let n = s.len();
    let mut out: Vec<Vec<char>> = Vec::new();
    let mut start: usize = 0;
    assert(s@.skip(0) == s@);
    assert(lines_view(out@) == Seq::<Seq<char>>::empty());
    loop
        invariant
            start <= n == s.len(),
            segments_of(s@) == lines_view(out@) + segments_of(s@.skip(start as int)),
        decreases n - start,
    {
        let ghost rest = s@.skip(start as int);
        let mut k: usize = start;
        while k < n && s[k] != '/' && s[k] != '\\'
            invariant
                start <= k <= n == s.len(),
                forall|j: int| start <= j < k ==> !is_separator(s@[j]),
            decreases n - k,
        {
            k += 1;
        }
        proof {
            lemma_segment_end(rest, k - start);
        }
        let ghost before = out@;
        let seg = slice_of(s, start, k);
        out.push(seg);
        proof {
            assert(lines_view(out@) == lines_view(before).push(seg@));
        }
        if k < n {
            proof {
                assert(rest.take(k - start) == s@.subrange(start as int, k as int));
                assert(rest.skip(k - start + 1) == s@.skip(k + 1));
                assert(segments_of(rest) == seq![seg@] + segments_of(s@.skip(k + 1)));
                assert(lines_view(before) + (seq![seg@] + segments_of(s@.skip(k + 1)))
                    == lines_view(before).push(seg@) + segments_of(s@.skip(k + 1)));
            }
            start = k + 1;
        } else {
            proof {
                assert(seg@ == rest);
                assert(segments_of(rest) == seq![rest]);
                assert(lines_view(before) + seq![rest] == lines_view(before).push(rest));
            }
            return out;
        }
    }
}

/// The names below the root that the segments lead to, if they stay under
/// the root all the way.
fn descend(segs: &Vec<Vec<char>>) -> (r: Option<Vec<Vec<char>>>)
    ensures
        match r {
            Some(names) => walk(lines_view(segs@), segs.len() as int) == Some(lines_view(names@)),
            None => walk(lines_view(segs@), segs.len() as int) is None,
        },
{
    let ghost sv = lines_view(segs@);
    let mut stack: Vec<Vec<char>> = Vec::new();
    let mut i: usize = 0;
    assert(lines_view(stack@) == Seq::<Seq<char>>::empty());
    while i < segs.len()
        invariant
            i <= segs.len(),
            sv == lines_view(segs@),
            walk(sv, i as int) == Some(lines_view(stack@)),
        decreases segs.len() - i,
    {
        let seg = &segs[i];
        assert(sv[i as int] == seg@);
        let ghost before = lines_view(stack@);
        if seg.len() == 0 || (seg.len() == 1 && seg[0] == '.') {
            assert(is_idle(seg@)) by {
                if seg.len() == 1 {
                    assert(seg@ == dot());
                }
            }
        } else if seg.len() == 2 && seg[0] == '.' && seg[1] == '.' {
            assert(seg@ == dot_dot());
            assert(!is_idle(seg@));
            if stack.len() == 0 {
                proof {
                    lemma_walk_stays_out(sv, i + 1, segs.len() as int);
                }
                return None;
            }
            stack.pop();
            assert(lines_view(stack@) == before.drop_last());
        } else {
            assert(!is_idle(seg@) && seg@ != dot_dot()) by {
                if seg@ == dot() {
                    assert(seg@.len() == 1 && seg@[0] == '.');
                }
                if seg@ == dot_dot() {
                    assert(seg@.len() == 2 && seg@[0] == '.' && seg@[1] == '.');
                }
            }
            let name = copy_chars(seg);
            assert(lines_view(stack@.push(name)) == before.push(name@));
            stack.push(name);
        }
        i += 1;
    }
    Some(stack)
}

fn join_under_chars(root: &Vec<char>, names: &Vec<Vec<char>>) -> (r: Vec<char>)
    ensures
        r@ == join_under(root@, lines_view(names@)),
{
    let ghost all = lines_view(names@);
    let mut out = copy_chars(root);
    let mut i: usize = 0;
    assert(all.take(0) == Seq::<Seq<char>>::empty());
    while i < names.len()
        invariant
            i <= names.len(),
            all == lines_view(names@),
            out@ == join_under(root@, all.take(i as int)),
        decreases names.len() - i,
    {
        let ghost base = out@;
        if out.len() > 0 && out[out.len() - 1] != '/' && out[out.len() - 1] != '\\' {
            out.push('/');
        }
        append_chars(&mut out, &names[i]);
        proof {
            assert(all.take(i + 1).drop_last() == all.take(i as int));
            assert(all.take(i + 1).last() == names@[i as int]@);
        }
        i += 1;
    }
    assert(all.take(names.len() as int) == all);
    out
}

/// Whether a relative path is admissible under the allowlist.
pub fn is_admissible(rel: &str, allowlist: &[String]) -> (r: bool)
    ensures
        r == admissible(rel@, strings_view(allowlist@)),
{
    let path = chars_of(rel);
    if path.len() == 0 || !allowlist_admits_path(allowlist, rel) || is_anchored_chars(&path) {
        return false;
    }
    let segs = split_segments(&path);
    descend(&segs).is_some()
}

/// Resolves an untrusted relative path under a root. The path is rejected
/// where it is empty, where no entry of the allowlist admits it, where it
/// names a root of its own, and where it leaves the root at any point;
/// otherwise the result is the root followed by the names that the path
/// leads to. The file need not exist, and nothing is read from disk.
pub fn safe_join(root: &str, rel: &str, allowlist: &[String]) -> (r: Result<String, VibeError>)
    ensures
        match resolved(root@, rel@, strings_view(allowlist@)) {
            Some(out) => r is Ok && r->Ok_0@ == out,
            None => r is Err && r->Err_0@ == VibeErrorView::PathRejected(rel@),
        },
{
    let path = chars_of(rel);
    if path.len() == 0 || !allowlist_admits_path(allowlist, rel) || is_anchored_chars(&path) {
        return Err(VibeError::PathRejected(rel.to_owned()));
    }
    let segs = split_segments(&path);
    match descend(&segs) {
        Some(names) => {
            let out = join_under_chars(&chars_of(root), &names);
            Ok(string_of(&out))
        },
        None => Err(VibeError::PathRejected(rel.to_owned())),
    }
}


/// A relative path is contained when it names no root of its own and never
/// leaves the root it is taken under.
pub open spec fn contained(rel: Seq<char>) -> bool {
    !is_anchored(rel) && descent(rel) is Some
}

/// Where a contained relative path leads under the root; none for a path
/// that is not contained.
pub open spec fn dir_under(root: Seq<char>, rel: Seq<char>) -> Option<Seq<char>> {
    if contained(rel) {
        Some(join_under(root, descent(rel)->0))
    } else {
        None
    }
}

/// Resolves a working directory under a root, without an allowlist: it is
/// rejected where it names a root of its own or leaves the root.
pub fn resolve_dir(root: &str, rel: &str) -> (r: Result<String, VibeError>)
    ensures
        match dir_under(root@, rel@) {
            Some(out) => r is Ok && r->Ok_0@ == out,
            None => r is Err && r->Err_0@ == VibeErrorView::PathRejected(rel@),
        },
{
    let path = chars_of(rel);
    if is_anchored_chars(&path) {
        return Err(VibeError::PathRejected(rel.to_owned()));
    }
    let segs = split_segments(&path);
    match descend(&segs) {
        Some(names) => {
            let out = join_under_chars(&chars_of(root), &names);
            Ok(string_of(&out))
        },
        None => Err(VibeError::PathRejected(rel.to_owned())),
    }
}

/// A working directory, too, stays under the root.
pub proof fn law_dir_lies_under_root(root: Seq<char>, rel: Seq<char>)
    ensures
        dir_under(root, rel) is Some ==> lies_under(root, dir_under(root, rel)->0) && starts_with(
            dir_under(root, rel)->0,
            root,
        ),
{
    if dir_under(root, rel) is Some {
        let segs = segments_of(rel);
        lemma_segments_are_separator_free(rel);
        lemma_walk(segs, segs.len() as int);
        lemma_join_starts_with_root(root, descent(rel)->0);
    }
}

} // verus!
