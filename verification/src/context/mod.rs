pub mod embeddings;

use crate::text::strings_view;
use vstd::prelude::*;

verus! {

/// The files that are always shown to the model.
pub open spec fn baseline_files() -> Seq<Seq<char>> {
    seq![
        "src/app/page.tsx"@,
        "src/app/layout.tsx"@,
        "src/app/components/InteractiveButton.tsx"@,
        "package.json"@,
    ]
}

/// `base` followed by those of the first `n` hits that did not occur
/// before, in their order.
pub open spec fn with_hits(base: Seq<Seq<char>>, hits: Seq<Seq<char>>, n: int) -> Seq<Seq<char>>
    decreases n,
{
    if n <= 0 {
        base
    } else {
        let r = with_hits(base, hits, n - 1);
        if r.contains(hits[n - 1]) {
            r
        } else {
            r.push(hits[n - 1])
        }
    }
}

/// The files that are always shown to the model.
pub fn baseline() -> (r: Vec<String>)
    ensures
        strings_view(r@) == baseline_files(),
{
    let mut r: Vec<String> = Vec::new();
    r.push("src/app/page.tsx".to_owned());
    r.push("src/app/layout.tsx".to_owned());
    r.push("src/app/components/InteractiveButton.tsx".to_owned());
    r.push("package.json".to_owned());
    assert(strings_view(r@) =~= baseline_files());
    r
}

fn holds(set: &[String], p: &String) -> (r: bool)
    ensures
        r == strings_view(set@).contains(p@),
{
    let mut i: usize = 0;
    while i < set.len()
        invariant
            i <= set.len(),
            forall|q: int| 0 <= q < i ==> strings_view(set@)[q] != p@,
        decreases set.len() - i,
    {
        assert(strings_view(set@)[i as int] == set@[i as int]@);
        if set[i] == *p {
            return true;
        }
        i += 1;
    }
    false
}

/// The files to show to the model for a task: the baseline, then the hits
/// of the search that are not in the list yet, in the order given. The
/// caller hands in the hits that exist on disk.
pub fn select_relevant_files(hits: &[String]) -> (r: Vec<String>)
    ensures
        strings_view(r@) == with_hits(baseline_files(), strings_view(hits@), hits.len() as int),
{
    let ghost hv = strings_view(hits@);
    let mut set = baseline();
    let mut i: usize = 0;
    while i < hits.len()
        invariant
            i <= hits.len(),
            hv == strings_view(hits@),
            strings_view(set@) == with_hits(baseline_files(), hv, i as int),
        decreases hits.len() - i,
    {
        assert(hv[i as int] == hits@[i as int]@);
        if !holds(&set, &hits[i]) {
            let p = hits[i].clone();
            assert(strings_view(set@.push(p)) == strings_view(set@).push(p@));
            set.push(p);
        }
        i += 1;
    }
    set
}

/// No file is listed twice, whatever the hits.
pub proof fn law_selection_has_no_repeats(hits: Seq<Seq<char>>, n: int)
    requires
        0 <= n <= hits.len(),
    ensures
        with_hits(baseline_files(), hits, n).no_duplicates(),
    decreases n,
{
    if n > 0 {
        law_selection_has_no_repeats(hits, n - 1);
    } else {
        reveal_strlit("src/app/page.tsx");
        reveal_strlit("src/app/layout.tsx");
        reveal_strlit("src/app/components/InteractiveButton.tsx");
        reveal_strlit("package.json");
        let b = baseline_files();
        assert(b[0].len() == 16 && b[1].len() == 18 && b[2].len() == 40 && b[3].len() == 12);
    }
}


/// How many bytes of a file of `bytes` bytes a snapshot shows: the whole
/// file, or its first `max_bytes` bytes where it is longer.
pub open spec fn shown(bytes: usize, max_bytes: usize) -> usize {
    if bytes > max_bytes {
        max_bytes
    } else {
        bytes
    }
}

/// How many bytes of a file of `bytes` bytes a snapshot shows.
pub fn shown_len(bytes: usize, max_bytes: usize) -> (r: usize)
    ensures
        r == shown(bytes, max_bytes),
        r <= bytes,
{
    if bytes > max_bytes {
        max_bytes
    } else {
        bytes
    }
}

} // verus!
