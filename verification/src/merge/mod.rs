use crate::text::{
    append_chars, chars_of, copy_chars, contains, contains_chars, join_line_chars, join_lines, lines_of,
    lines_view, lowercase, same_chars, split_lines, starts_with, starts_with_chars, string_of,
    strip_leading, strip_leading_chars, trim, trim_chars,
};
use vstd::prelude::*;

verus! {

/// The byte-order mark that may stand at the start of a file.
pub open spec fn bom() -> char {
    '\u{feff}'
}

/// Some word of `words` occurs in `t`.
pub open spec fn any_word_in(t: Seq<char>, words: Seq<Seq<char>>) -> bool {
    exists|k: int| 0 <= k < words.len() && contains(t, #[trigger] words[k])
}

/// The words that mark a task as adding to what is there.
pub open spec fn additive_words() -> Seq<Seq<char>> {
    seq!["add"@, "append"@, "insert"@, "another"@, "extra"@, "include"@, "augment"@]
}

/// The words that mark a task as replacing or removing what is there.
pub open spec fn destructive_words() -> Seq<Seq<char>> {
    seq!["remove"@, "delete"@, "replace"@, "overwrite"@, "rewrite"@, "refactor"@, "rework"@]
}

/// A lower-case task text is additive when it holds an additive word and
/// no destructive one.
pub open spec fn is_additive_text(t: Seq<char>) -> bool {
    any_word_in(t, additive_words()) && !any_word_in(t, destructive_words())
}

/// A lower-case task text asks for the directive to be removed.
pub open spec fn wants_directive_removed(t: Seq<char>) -> bool {
    contains(t, "remove 'use client'"@) || contains(t, "remove use client"@)
}

/// A line as the directive check reads it: without leading byte-order marks
/// and without surrounding white space.
pub open spec fn normalized_line(line: Seq<char>) -> Seq<char> {
    trim(strip_leading(line, bom()))
}

/// A normalized line that the directive check passes over: a blank line or
/// the start of a comment.
pub open spec fn is_skippable(l: Seq<char>) -> bool {
    l.len() == 0 || starts_with(l, "//"@) || starts_with(l, "/*"@)
}

/// A normalized line that is the directive, in one of its four spellings.
pub open spec fn is_directive(l: Seq<char>) -> bool {
    l == "'use client'"@ || l == "\"use client\""@ || l == "'use client';"@ || l
        == "\"use client\";"@
}

/// How many lines from the top the directive check reads.
pub open spec fn directive_window() -> int {
    10
}

/// Among the lines from `i` on that lie in the window, the first that is
/// neither blank nor a comment is the directive.
pub open spec fn directive_from(lines: Seq<Seq<char>>, i: int) -> bool
    decreases lines.len() - i,
{
    if i < 0 || i >= lines.len() || i >= directive_window() {
        false
    } else if is_skippable(normalized_line(lines[i])) {
        directive_from(lines, i + 1)
    } else {
        is_directive(normalized_line(lines[i]))
    }
}

/// The text opens with the directive.
pub open spec fn has_directive(src: Seq<char>) -> bool {
    directive_from(lines_of(src), 0)
}

/// The directive line and the blank line that are put back on top.
pub open spec fn directive_header() -> Seq<char> {
    "'use client'\n\n"@
}

/// The new content with the directive put back where the old text had it,
/// the new one lacks it, and the lower-case task does not ask for its removal.
pub open spec fn preserved(old_text: Option<Seq<char>>, new_content: Seq<char>, lowered_task: Seq<char>) -> Seq<char> {
    if wants_directive_removed(lowered_task) {
        new_content
    } else if old_text is Some && has_directive(old_text->0) && !has_directive(new_content) {
        directive_header() + strip_leading(new_content, bom())
    } else {
        new_content
    }
}

/// The length of a longest common subsequence of the lines of `a` from `i`
/// and the lines of `b` from `j`.
pub open spec fn lcs_len(a: Seq<Seq<char>>, b: Seq<Seq<char>>, i: int, j: int) -> nat
    decreases a.len() - i + b.len() - j,
{
    if i < 0 || j < 0 || i >= a.len() || j >= b.len() {
        0
    } else if a[i] == b[j] {
        1 + lcs_len(a, b, i + 1, j + 1)
    } else if lcs_len(a, b, i + 1, j) >= lcs_len(a, b, i, j + 1) {
        lcs_len(a, b, i + 1, j)
    } else {
        lcs_len(a, b, i, j + 1)
    }
}

/// The merge of the lines of `a` from `i` with the lines of `b` from `j`: a
/// shared line is taken once; otherwise the line of `a` is taken where passing
/// over it keeps at least as long a common subsequence as passing over the
/// line of `b`, and the line of `b` is taken where not; what is left of either
/// side at the end follows.
pub open spec fn merge_walk(a: Seq<Seq<char>>, b: Seq<Seq<char>>, i: int, j: int) -> Seq<Seq<char>>
    decreases a.len() - i + b.len() - j,
{
    if i < 0 || j < 0 || i > a.len() || j > b.len() {
        Seq::empty()
    } else if i == a.len() {
        b.skip(j)
    } else if j == b.len() {
        a.skip(i)
    } else if a[i] == b[j] {
        seq![a[i]] + merge_walk(a, b, i + 1, j + 1)
    } else if lcs_len(a, b, i + 1, j) >= lcs_len(a, b, i, j + 1) {
        seq![a[i]] + merge_walk(a, b, i + 1, j)
    } else {
        seq![b[j]] + merge_walk(a, b, i, j + 1)
    }
}

/// The lines with every run of equal neighbours reduced to one line.
pub open spec fn collapse(l: Seq<Seq<char>>) -> Seq<Seq<char>>
    decreases l.len(),
{
    if l.len() == 0 {
        Seq::empty()
    } else {
        let c = collapse(l.drop_last());
        if c.len() > 0 && c.last() == l.last() {
            c
        } else {
            c.push(l.last())
        }
    }
}

/// The additive merge of two line sequences.
pub open spec fn merge_lines(a: Seq<Seq<char>>, b: Seq<Seq<char>>) -> Seq<Seq<char>> {
    collapse(merge_walk(a, b, 0, 0))
}

/// The additive merge of two texts.
pub open spec fn merge_text(old_text: Seq<char>, proposed: Seq<char>) -> Seq<char> {
    join_lines(merge_lines(lines_of(old_text), lines_of(proposed)))
}

proof fn lemma_lcs_bound(a: Seq<Seq<char>>, b: Seq<Seq<char>>, i: int, j: int)
    requires
        0 <= i <= a.len(),
        0 <= j <= b.len(),
    ensures
        lcs_len(a, b, i, j) <= a.len() - i,
        lcs_len(a, b, i, j) <= b.len() - j,
    decreases a.len() - i + b.len() - j,
{
    if i < a.len() && j < b.len() {
        lemma_lcs_bound(a, b, i + 1, j + 1);
        lemma_lcs_bound(a, b, i + 1, j);
        lemma_lcs_bound(a, b, i, j + 1);
    }
}

/// Every line of either side from the cursors on occurs in the walk.
pub proof fn lemma_walk_keeps(a: Seq<Seq<char>>, b: Seq<Seq<char>>, i: int, j: int)
    requires
        0 <= i <= a.len(),
        0 <= j <= b.len(),
    ensures
        forall|k: int| i <= k < a.len() ==> merge_walk(a, b, i, j).contains(#[trigger] a[k]),
        forall|k: int| j <= k < b.len() ==> merge_walk(a, b, i, j).contains(#[trigger] b[k]),
    decreases a.len() - i + b.len() - j,
{
    let w = merge_walk(a, b, i, j);
    if i == a.len() {
        assert forall|k: int| j <= k < b.len() implies w.contains(#[trigger] b[k]) by {
            assert(w[k - j] == b[k]);
        }
    } else if j == b.len() {
        assert forall|k: int| i <= k < a.len() implies w.contains(#[trigger] a[k]) by {
            assert(w[k - i] == a[k]);
        }
    } else {
        let (ni, nj) = if a[i] == b[j] {
            (i + 1, j + 1)
        } else if lcs_len(a, b, i + 1, j) >= lcs_len(a, b, i, j + 1) {
            (i + 1, j)
        } else {
            (i, j + 1)
        };
        lemma_walk_keeps(a, b, ni, nj);
        let rest = merge_walk(a, b, ni, nj);
        assert(w.len() == rest.len() + 1);
        assert(forall|p: int| 0 <= p < rest.len() ==> w[p + 1] == rest[p]);
        assert forall|k: int| i <= k < a.len() implies w.contains(#[trigger] a[k]) by {
            if k >= ni {
                let p = choose|p: int| 0 <= p < rest.len() && rest[p] == a[k];
                assert(w[p + 1] == a[k]);
            } else {
                assert(w[0] == a[k]);
            }
        }
        assert forall|k: int| j <= k < b.len() implies w.contains(#[trigger] b[k]) by {
            if k >= nj {
                let p = choose|p: int| 0 <= p < rest.len() && rest[p] == b[k];
                assert(w[p + 1] == b[k]);
            } else {
                assert(w[0] == b[k]);
            }
        }
    }
}

/// Collapsing loses no line: what occurs before occurs after.
pub proof fn lemma_collapse_keeps(l: Seq<Seq<char>>, x: Seq<char>)
    requires
        l.contains(x),
    ensures
        collapse(l).contains(x),
    decreases l.len(),
{
    let c = collapse(l.drop_last());
    let p = choose|p: int| 0 <= p < l.len() && l[p] == x;
    if p < l.len() - 1 {
        assert(l.drop_last()[p] == x);
        lemma_collapse_keeps(l.drop_last(), x);
        let q = choose|q: int| 0 <= q < c.len() && c[q] == x;
        assert(collapse(l)[q] == x);
    } else {
        if c.len() > 0 && c.last() == l.last() {
            assert(c[c.len() - 1] == x);
        } else {
            assert(c.push(l.last())[c.len() as int] == x);
        }
    }
}

/// Collapsing adds no line: what occurs after occurred before.
pub proof fn lemma_collapse_adds_nothing(l: Seq<Seq<char>>, x: Seq<char>)
    requires
        collapse(l).contains(x),
    ensures
        l.contains(x),
    decreases l.len(),
{
    if l.len() > 0 {
        let c = collapse(l.drop_last());
        let q = choose|q: int| 0 <= q < collapse(l).len() && collapse(l)[q] == x;
        if q < c.len() {
            assert(c[q] == x);
            lemma_collapse_keeps_index(l, q);
            lemma_collapse_adds_nothing(l.drop_last(), x);
            let p = choose|p: int| 0 <= p < l.drop_last().len() && l.drop_last()[p] == x;
            assert(l[p] == x);
        } else {
            assert(l[l.len() - 1] == x);
        }
    }
}

proof fn lemma_collapse_keeps_index(l: Seq<Seq<char>>, q: int)
    requires
        l.len() > 0,
        0 <= q < collapse(l.drop_last()).len(),
    ensures
        collapse(l)[q] == collapse(l.drop_last())[q],
{
}

/// A merge loses no line: every line of the old sequence, and every line of
/// the proposed one, occurs in their merge.
pub proof fn law_merge_keeps_lines(old_lines: Seq<Seq<char>>, proposed: Seq<Seq<char>>)
    ensures
        forall|k: int|
            0 <= k < old_lines.len() ==> merge_lines(old_lines, proposed).contains(
                #[trigger] old_lines[k],
            ),
        forall|k: int|
            0 <= k < proposed.len() ==> merge_lines(old_lines, proposed).contains(
                #[trigger] proposed[k],
            ),
{
    lemma_walk_keeps(old_lines, proposed, 0, 0);
    let w = merge_walk(old_lines, proposed, 0, 0);
    assert forall|k: int| 0 <= k < old_lines.len() implies merge_lines(
        old_lines,
        proposed,
    ).contains(#[trigger] old_lines[k]) by {
        lemma_collapse_keeps(w, old_lines[k]);
    }
    assert forall|k: int| 0 <= k < proposed.len() implies merge_lines(
        old_lines,
        proposed,
    ).contains(#[trigger] proposed[k]) by {
        lemma_collapse_keeps(w, proposed[k]);
    }
}

proof fn lemma_walk_same(a: Seq<Seq<char>>, i: int)
    requires
        0 <= i <= a.len(),
    ensures
        merge_walk(a, a, i, i) == a.skip(i),
    decreases a.len() - i,
{
    if i < a.len() {
        lemma_walk_same(a, i + 1);
        assert(seq![a[i]] + a.skip(i + 1) == a.skip(i));
    }
}

/// Merging a sequence of lines with itself changes nothing but runs of equal
/// neighbours, which become one line each.
pub proof fn law_merge_idempotent(lines: Seq<Seq<char>>)
    ensures
        merge_lines(lines, lines) == collapse(lines),
{
    lemma_walk_same(lines, 0);
    assert(lines.skip(0) == lines);
}

/// No line of `l` equals the line after it.
pub open spec fn no_equal_neighbours(l: Seq<Seq<char>>) -> bool {
    forall|k: int| 0 <= k < l.len() - 1 ==> #[trigger] l[k] != l[k + 1]
}

/// Collapsing leaves a sequence without equal neighbours as it is.
pub proof fn lemma_collapse_fixed(l: Seq<Seq<char>>)
    requires
        no_equal_neighbours(l),
    ensures
        collapse(l) == l,
    decreases l.len(),
{
    if l.len() > 0 {
        let d = l.drop_last();
        assert forall|k: int| 0 <= k < d.len() - 1 implies #[trigger] d[k] != d[k + 1] by {
            assert(l[k] != l[k + 1]);
        }
        lemma_collapse_fixed(d);
        if d.len() > 0 {
            assert(l[l.len() - 2] != l[l.len() - 2 + 1]);
        }
        assert(d.push(l.last()) == l);
    }
}

/// A text of which no two neighbouring lines are equal merges with itself to
/// its own lines, joined by line feeds.
pub proof fn law_merge_text_idempotent(t: Seq<char>)
    requires
        no_equal_neighbours(lines_of(t)),
    ensures
        merge_text(t, t) == join_lines(lines_of(t)),
{
    law_merge_idempotent(lines_of(t));
    lemma_collapse_fixed(lines_of(t));
}


proof fn lemma_lines_view_push(v: Seq<Vec<char>>, x: Vec<char>)
    ensures
        lines_view(v.push(x)) == lines_view(v).push(x@),
{
    assert(lines_view(v.push(x)) =~= lines_view(v).push(x@));
}

/// Whether some word of `words` occurs in `t`.
pub fn any_word_occurs(t: &Vec<char>, words: &Vec<Vec<char>>) -> (r: bool)
    ensures
        r == any_word_in(t@, lines_view(words@)),
{
    let mut k: usize = 0;
    while k < words.len()
        invariant
            k <= words.len(),
            forall|q: int| 0 <= q < k ==> !contains(t@, #[trigger] lines_view(words@)[q]),
        decreases words.len() - k,
    {
        if contains_chars(t, &words[k]) {
            assert(lines_view(words@)[k as int] == words@[k as int]@);
            return true;
        }
        k += 1;
    }
    false
}

fn additive_word_list() -> (w: Vec<Vec<char>>)
    ensures
        lines_view(w@) == additive_words(),
{
    let mut w: Vec<Vec<char>> = Vec::new();
    w.push(chars_of("add"));
    w.push(chars_of("append"));
    w.push(chars_of("insert"));
    w.push(chars_of("another"));
    w.push(chars_of("extra"));
    w.push(chars_of("include"));
    w.push(chars_of("augment"));
    assert(lines_view(w@) =~= additive_words());
    w
}

fn destructive_word_list() -> (w: Vec<Vec<char>>)
    ensures
        lines_view(w@) == destructive_words(),
{
    let mut w: Vec<Vec<char>> = Vec::new();
    w.push(chars_of("remove"));
    w.push(chars_of("delete"));
    w.push(chars_of("replace"));
    w.push(chars_of("overwrite"));
    w.push(chars_of("rewrite"));
    w.push(chars_of("refactor"));
    w.push(chars_of("rework"));
    assert(lines_view(w@) =~= destructive_words());
    w
}

/// Whether a task text that is already in lower case is additive.
pub fn is_additive_lowered(lowered_task: &str) -> (r: bool)
    ensures
        r == is_additive_text(lowered_task@),
{
    let t = chars_of(lowered_task);
    let adds = additive_word_list();
    let destroys = destructive_word_list();
    any_word_occurs(&t, &adds) && !any_word_occurs(&t, &destroys)
}

/// Whether a task asks to add to what is there: its lower-case form holds an
/// additive word and no destructive one.
pub fn is_additive_task(task: &str) -> (r: bool)
    ensures
        r == is_additive_text(lowercase(task@)),
{
    let t = task.to_lowercase();
    is_additive_lowered(t.as_str())
}

/// Whether the text opens with the directive: among its first lines, the
/// first that is neither blank nor a comment is the directive.
pub fn has_use_client_top(src: &str) -> (r: bool)
    ensures
        r == has_directive(src@),
{
    let chars = chars_of(src);
    let lines = split_lines(&chars);
    let slashes = chars_of("//");
    let star = chars_of("/*");
    let single = chars_of("'use client'");
    let double = chars_of("\"use client\"");
    let single_semi = chars_of("'use client';");
    let double_semi = chars_of("\"use client\";");
    let mut i: usize = 0;
    while i < lines.len() && i < 10
        invariant
            i <= lines.len(),
            lines_view(lines@) == lines_of(src@),
            has_directive(src@) == directive_from(lines_of(src@), i as int),
            slashes@ == "//"@,
            star@ == "/*"@,
            single@ == "'use client'"@,
            double@ == "\"use client\""@,
            single_semi@ == "'use client';"@,
            double_semi@ == "\"use client\";"@,
        decreases lines.len() - i,
    {
        assert(lines_view(lines@)[i as int] == lines@[i as int]@);
        let stripped = strip_leading_chars(&lines[i], '\u{feff}');
        let l = trim_chars(&stripped);
        if l.len() == 0 || starts_with_chars(&l, &slashes) || starts_with_chars(&l, &star) {
            i += 1;
        } else {
            return same_chars(&l, &single) || same_chars(&l, &double) || same_chars(
                &l,
                &single_semi,
            ) || same_chars(&l, &double_semi);
        }
    }
    false
}

/// The new content with the directive put back on top where the old text
/// opens with it and the new one does not, unless the task, given in lower
/// case, asks for its removal.
pub fn preserve_use_client_lowered(old: Option<&str>, new_content: &str, lowered_task: &str) -> (r:
    String)
    ensures
        r@ == preserved(
            match old {
                Some(o) => Some(o@),
                None => None,
            },
            new_content@,
            lowered_task@,
        ),
{
    let t = chars_of(lowered_task);
    let quoted = chars_of("remove 'use client'");
    let plain = chars_of("remove use client");
    if contains_chars(&t, &quoted) || contains_chars(&t, &plain) {
        return new_content.to_owned();
    }
    match old {
        Some(o) => {
            if has_use_client_top(o) && !has_use_client_top(new_content) {
                let mut v = chars_of("'use client'\n\n");
                let body = strip_leading_chars(&chars_of(new_content), '\u{feff}');
                append_chars(&mut v, &body);
                string_of(&v)
            } else {
                new_content.to_owned()
            }
        },
        None => new_content.to_owned(),
    }
}

/// The new content with the directive put back on top where the old text
/// opens with it and the new one does not, unless the task asks for its
/// removal.
pub fn preserve_use_client(old: Option<&str>, new_content: &str, task: &str) -> (r: String)
    ensures
        r@ == preserved(
            match old {
                Some(o) => Some(o@),
                None => None,
            },
            new_content@,
            lowercase(task@),
        ),
{
    let t = task.to_lowercase();
    preserve_use_client_lowered(old, new_content, t.as_str())
}

/// The rows of `t` from `from` on hold the common-subsequence lengths of
/// `a` and `b`.
pub open spec fn table_rows_ok(
    t: Seq<Vec<usize>>,
    a: Seq<Seq<char>>,
    b: Seq<Seq<char>>,
    from: int,
) -> bool {
    &&& t.len() == a.len()
    &&& forall|r: int|
        from <= r < a.len() ==> (#[trigger] t[r]).len() == b.len() && forall|c: int|
            0 <= c < b.len() ==> #[trigger] t[r][c] == lcs_len(a, b, r, c)
}

fn table_at(
    table: &Vec<Vec<usize>>,
    i: usize,
    j: usize,
    Ghost(a): Ghost<Seq<Seq<char>>>,
    Ghost(b): Ghost<Seq<Seq<char>>>,
    Ghost(from): Ghost<int>,
) -> (r: usize)
    requires
        table_rows_ok(table@, a, b, from),
        0 <= from <= i,
    ensures
        r == lcs_len(a, b, i as int, j as int),
{
    if i >= table.len() {
        0
    } else if j >= table[i].len() {
        0
    } else {
        table[i][j]
    }
}

/// The table of common-subsequence lengths of the two line sequences.
fn lcs_table(a: &Vec<Vec<char>>, b: &Vec<Vec<char>>) -> (table: Vec<Vec<usize>>)
    ensures
        table_rows_ok(table@, lines_view(a@), lines_view(b@), 0),
{
    let n = a.len();
    let m = b.len();
    let ghost la = lines_view(a@);
    let ghost lb = lines_view(b@);
    let mut table: Vec<Vec<usize>> = Vec::new();
    let mut r: usize = 0;
    while r < n
        invariant
            r <= n,
            table.len() == r,
        decreases n - r,
    {
        table.push(Vec::new());
        r += 1;
    }
    let mut i: usize = n;
    while i > 0
        invariant
            i <= n == a.len(),
            m == b.len(),
            la == lines_view(a@),
            lb == lines_view(b@),
            table_rows_ok(table@, la, lb, i as int),
        decreases i,
    {
        let row: usize = i - 1;
        let mut cur: Vec<usize> = Vec::new();
        let mut c: usize = 0;
        while c < m
            invariant
                c <= m,
                cur.len() == c,
            decreases m - c,
        {
            cur.push(0);
            c += 1;
        }
        let mut j: usize = m;
        while j > 0
            invariant
                j <= m == b.len(),
                row < n == a.len(),
                row == i - 1,
                cur.len() == m,
                la == lines_view(a@),
                lb == lines_view(b@),
                table_rows_ok(table@, la, lb, i as int),
                forall|c: int| j <= c < m ==> #[trigger] cur@[c] == lcs_len(la, lb, row as int, c),
            decreases j,
        {
            let col: usize = j - 1;
            assert(la[row as int] == a@[row as int]@);
            assert(lb[col as int] == b@[col as int]@);
            let down = table_at(&table, i, col, Ghost(la), Ghost(lb), Ghost(i as int));
            let right: usize = if j < m {
                cur[j]
            } else {
                0
            };
            let value: usize = if same_chars(&a[row], &b[col]) {
                let diag = table_at(&table, i, j, Ghost(la), Ghost(lb), Ghost(i as int));
                proof {
                    lemma_lcs_bound(la, lb, i as int, j as int);
                }
                diag + 1
            } else if down >= right {
                down
            } else {
                right
            };
            assert(right == lcs_len(la, lb, row as int, col + 1));
            cur.set(col, value);
            j -= 1;
        }
        table.set(row, cur);
        i -= 1;
    }
    table
}

/// The lines with every run of equal neighbours reduced to one line.
pub fn collapse_lines(lines: &Vec<Vec<char>>) -> (r: Vec<Vec<char>>)
    ensures
        lines_view(r@) == collapse(lines_view(lines@)),
{
    let ghost all = lines_view(lines@);
    let mut cleaned: Vec<Vec<char>> = Vec::new();
    let mut k: usize = 0;
    assert(all.take(0) == Seq::<Seq<char>>::empty());
    assert(lines_view(cleaned@) == Seq::<Seq<char>>::empty());
    while k < lines.len()
        invariant
            k <= lines.len(),
            all == lines_view(lines@),
            lines_view(cleaned@) == collapse(all.take(k as int)),
        decreases lines.len() - k,
    {
        proof {
            assert(all.take(k + 1).drop_last() == all.take(k as int));
            assert(all.take(k + 1).last() == lines@[k as int]@);
            if cleaned.len() > 0 {
                assert(lines_view(cleaned@).last() == cleaned@[cleaned.len() - 1]@);
            }
        }
        let repeated = cleaned.len() > 0 && same_chars(&cleaned[cleaned.len() - 1], &lines[k]);
        if !repeated {
            let line = copy_chars(&lines[k]);
            assert(line@ == lines@[k as int]@);
            proof {
                lemma_lines_view_push(cleaned@, line);
            }
            cleaned.push(line);
        }
        k += 1;
    }
    assert(all.take(lines.len() as int) == all);
    cleaned
}

/// The additive merge of two line sequences: no line of either is lost, the
/// lines of each keep their order, and equal neighbours become one line.
pub fn merge_line_vecs(a: &Vec<Vec<char>>, b: &Vec<Vec<char>>) -> (r: Vec<Vec<char>>)
    ensures
        lines_view(r@) == merge_lines(lines_view(a@), lines_view(b@)),
{
    let n = a.len();
    let m = b.len();
    let ghost la = lines_view(a@);
    let ghost lb = lines_view(b@);
    let table = lcs_table(a, b);
    let mut out: Vec<Vec<char>> = Vec::new();
    let mut i: usize = 0;
    let mut j: usize = 0;
    assert(lines_view(out@) == Seq::<Seq<char>>::empty());
    assert(Seq::<Seq<char>>::empty() + merge_walk(la, lb, 0, 0) == merge_walk(la, lb, 0, 0));
    while i < n && j < m
        invariant
            i <= n == a.len(),
            j <= m == b.len(),
            la == lines_view(a@),
            lb == lines_view(b@),
            table_rows_ok(table@, la, lb, 0),
            lines_view(out@) + merge_walk(la, lb, i as int, j as int) == merge_walk(la, lb, 0, 0),
        decreases (n - i) + (m - j),
    {
        assert(la[i as int] == a@[i as int]@);
        assert(lb[j as int] == b@[j as int]@);
        let ghost before = lines_view(out@);
        let ghost walk = merge_walk(la, lb, i as int, j as int);
        let line: Vec<char>;
        if same_chars(&a[i], &b[j]) {
            line = copy_chars(&a[i]);
            i += 1;
            j += 1;
        } else {
            let down = table_at(&table, i + 1, j, Ghost(la), Ghost(lb), Ghost(0));
            let right = table_at(&table, i, j + 1, Ghost(la), Ghost(lb), Ghost(0));
            if down >= right {
                line = copy_chars(&a[i]);
                i += 1;
            } else {
                line = copy_chars(&b[j]);
                j += 1;
            }
        }
        proof {
            let rest = merge_walk(la, lb, i as int, j as int);
            assert(walk == seq![line@] + rest);
            lemma_lines_view_push(out@, line);
            assert(before + (seq![line@] + rest) == before.push(line@) + rest);
        }
        out.push(line);
    }
    while i < n
        invariant
            i <= n == a.len(),
            j <= m == b.len(),
            i == n || j == m,
            la == lines_view(a@),
            lb == lines_view(b@),
            lines_view(out@) + merge_walk(la, lb, i as int, j as int) == merge_walk(la, lb, 0, 0),
        decreases n - i,
    {
        assert(la[i as int] == a@[i as int]@);
        let ghost before = lines_view(out@);
        let line = copy_chars(&a[i]);
        proof {
            assert(merge_walk(la, lb, i as int, j as int) == la.skip(i as int));
            assert(la.skip(i as int) == seq![line@] + la.skip(i + 1));
            assert(merge_walk(la, lb, i + 1, j as int) == la.skip(i + 1)) by {
                if i + 1 == n {
                    assert(la.skip(i + 1) == Seq::<Seq<char>>::empty());
                    assert(lb.skip(j as int) == Seq::<Seq<char>>::empty());
                }
            }
            lemma_lines_view_push(out@, line);
            assert(before + (seq![line@] + la.skip(i + 1)) == before.push(line@) + la.skip(i + 1));
        }
        out.push(line);
        i += 1;
    }
    while j < m
        invariant
            i == n == a.len(),
            j <= m == b.len(),
            la == lines_view(a@),
            lb == lines_view(b@),
            lines_view(out@) + merge_walk(la, lb, i as int, j as int) == merge_walk(la, lb, 0, 0),
        decreases m - j,
    {
        assert(lb[j as int] == b@[j as int]@);
        let ghost before = lines_view(out@);
        let line = copy_chars(&b[j]);
        proof {
            assert(lb.skip(j as int) == seq![line@] + lb.skip(j + 1));
            lemma_lines_view_push(out@, line);
            assert(before + (seq![line@] + lb.skip(j + 1)) == before.push(line@) + lb.skip(j + 1));
        }
        out.push(line);
        j += 1;
    }
    proof {
        assert(merge_walk(la, lb, i as int, j as int) == Seq::<Seq<char>>::empty()) by {
            assert(lb.skip(m as int) == Seq::<Seq<char>>::empty());
        }
        assert(lines_view(out@) + Seq::<Seq<char>>::empty() == lines_view(out@));
    }
    collapse_lines(&out)
}

/// The additive merge of an existing text and a proposed one, line by line:
/// every line of the old text is kept, the lines that the proposal adds or
/// changes are laid in, and the result is joined by line feeds.
pub fn additive_merge(old: &str, new_content: &str) -> (r: String)
    ensures
        r@ == merge_text(old@, new_content@),
{
    let a = split_lines(&chars_of(old));
    let b = split_lines(&chars_of(new_content));
    let merged = merge_line_vecs(&a, &b);
    string_of(&join_line_chars(&merged))
}


/// The merged text with the directive put back on top where the old text
/// opens with it and the merged one does not, unless the lower-case task
/// asks for its removal. The merged text holds the lines of the old one, so
/// nothing is taken away from it, a leading byte-order mark neither.
pub open spec fn restored(old_text: Seq<char>, merged: Seq<char>, lowered_task: Seq<char>) -> Seq<
    char,
> {
    if !wants_directive_removed(lowered_task) && has_directive(old_text) && !has_directive(merged) {
        directive_header() + merged
    } else {
        merged
    }
}

/// What is written for a step that carries content: the content itself where
/// the file is absent. Where it is there, an update under an additive task
/// writes the merge of the old text and the content, with the directive put
/// back on top; any other step writes the content, with the directive kept.
/// In every case the text ends in a line feed.
pub open spec fn final_text(
    is_update: bool,
    old_text: Option<Seq<char>>,
    content: Seq<char>,
    lowered_task: Seq<char>,
) -> Seq<char> {
    crate::text::with_final_newline(
        match old_text {
            None => content,
            Some(o) => if is_update && is_additive_text(lowered_task) {
                restored(o, merge_text(o, content), lowered_task)
            } else {
                preserved(Some(o), content, lowered_task)
            },
        },
    )
}

/// The merged text with the directive put back on top where the old text
/// opens with it and the merged one does not, unless the task, given in
/// lower case, asks for its removal.
pub fn restore_directive_lowered(old: &str, merged: &str, lowered_task: &str) -> (r: String)
    ensures
        r@ == restored(old@, merged@, lowered_task@),
{
    let t = chars_of(lowered_task);
    let quoted = chars_of("remove 'use client'");
    let plain = chars_of("remove use client");
    if contains_chars(&t, &quoted) || contains_chars(&t, &plain) {
        return merged.to_owned();
    }
    if has_use_client_top(old) && !has_use_client_top(merged) {
        let mut v = chars_of("'use client'\n\n");
        append_chars(&mut v, &chars_of(merged));
        string_of(&v)
    } else {
        merged.to_owned()
    }
}

/// What is written for a step that carries content, given the text that is
/// on disk, if any, and the task in lower case.
pub fn final_content(is_update: bool, old: Option<&str>, content: &str, lowered_task: &str) -> (r:
    String)
    ensures
        r@ == final_text(
            is_update,
            match old {
                Some(o) => Some(o@),
                None => None,
            },
            content@,
            lowered_task@,
        ),
{
    match old {
        None => crate::text::ensure_final_newline(content),
        Some(o) => {
            let kept = if is_update && is_additive_lowered(lowered_task) {
                let merged = additive_merge(o, content);
                restore_directive_lowered(o, merged.as_str(), lowered_task)
            } else {
                preserve_use_client_lowered(Some(o), content, lowered_task)
            };
            crate::text::ensure_final_newline(kept.as_str())
        },
    }
}


/// A text that starts with the directive header opens with the directive.
pub proof fn lemma_header_has_directive(rest: Seq<char>)
    ensures
        has_directive(directive_header() + rest),
{
    reveal_strlit("'use client'\n\n");
    reveal_strlit("'use client'");
    reveal_strlit("//");
    reveal_strlit("/*");
    let t = directive_header() + rest;
    let first = "'use client'"@;
    assert(t.len() >= 14);
    crate::text::lemma_line_end(t, 12);
    assert(t.take(12) == first);
    assert(crate::text::strip_cr(first) == first);
    let lines = lines_of(t);
    assert(lines[0] == first);
    assert(strip_leading(first, bom()) == first);
    assert(crate::text::trim_start(first) == first);
    assert(crate::text::trim_end(first) == first);
    assert(normalized_line(first) == first);
    assert(!starts_with(first, "//"@)) by {
        if starts_with(first, "//"@) {
            assert(first.take(2)[0] == '/');
        }
    }
    assert(!starts_with(first, "/*"@)) by {
        if starts_with(first, "/*"@) {
            assert(first.take(2)[0] == '/');
        }
    }
    assert(!is_skippable(first));
    assert(is_directive(first));
}

/// Where the old text opens with the directive and the task does not ask
/// for its removal, what is kept opens with the directive too.
pub proof fn law_directive_survives(old_text: Seq<char>, new_content: Seq<char>, lowered_task: Seq<char>)
    requires
        has_directive(old_text),
        !wants_directive_removed(lowered_task),
    ensures
        has_directive(preserved(Some(old_text), new_content, lowered_task)),
{
    if !has_directive(new_content) {
        lemma_header_has_directive(strip_leading(new_content, bom()));
    }
}


/// The positions `xs` in `a`, from `i` on, and `ys` in `b`, from `j` on,
/// pick a common subsequence: both rise, and the lines they pick are equal
/// pair by pair.
pub open spec fn is_common(
    a: Seq<Seq<char>>,
    b: Seq<Seq<char>>,
    i: int,
    j: int,
    xs: Seq<int>,
    ys: Seq<int>,
) -> bool {
    &&& xs.len() == ys.len()
    &&& forall|t: int|
        0 <= t < xs.len() ==> i <= #[trigger] xs[t] < a.len() && j <= ys[t] < b.len() && a[xs[t]]
            == b[ys[t]]
    &&& forall|s: int, t: int|
        #![trigger xs[s], xs[t]]
        0 <= s < t < xs.len() ==> xs[s] < xs[t] && ys[s] < ys[t]
}

/// No common subsequence is longer than `lcs_len` says.
pub proof fn law_lcs_bounds_every_common_subsequence(
    a: Seq<Seq<char>>,
    b: Seq<Seq<char>>,
    i: int,
    j: int,
    xs: Seq<int>,
    ys: Seq<int>,
)
    requires
        0 <= i <= a.len(),
        0 <= j <= b.len(),
        is_common(a, b, i, j, xs, ys),
    ensures
        xs.len() <= lcs_len(a, b, i, j),
    decreases a.len() - i + b.len() - j,
{
    if xs.len() > 0 {
        assert(i <= xs[0] < a.len());
        assert(j <= ys[0] < b.len());
        if a[i] == b[j] {
            let xt = xs.skip(1);
            let yt = ys.skip(1);
            assert(is_common(a, b, i + 1, j + 1, xt, yt)) by {
                assert forall|t: int| 0 <= t < xt.len() implies i + 1 <= #[trigger] xt[t] < a.len()
                    && j + 1 <= yt[t] < b.len() && a[xt[t]] == b[yt[t]] by {
                    assert(xs[0] < xs[t + 1] && ys[0] < ys[t + 1]);
                    assert(i <= xs[t + 1] < a.len());
                }
                assert forall|s: int, t: int| 0 <= s < t < xt.len() implies #[trigger] xt[s]
                    < #[trigger] xt[t] && yt[s] < yt[t] by {
                    assert(xs[s + 1] < xs[t + 1] && ys[s + 1] < ys[t + 1]);
                }
            }
            law_lcs_bounds_every_common_subsequence(a, b, i + 1, j + 1, xt, yt);
        } else if xs[0] > i {
            assert(is_common(a, b, i + 1, j, xs, ys)) by {
                assert forall|t: int| 0 <= t < xs.len() implies i + 1 <= #[trigger] xs[t] < a.len()
                    && j <= ys[t] < b.len() && a[xs[t]] == b[ys[t]] by {
                    if t > 0 {
                        assert(xs[0] < xs[t]);
                    }
                }
            }
            law_lcs_bounds_every_common_subsequence(a, b, i + 1, j, xs, ys);
        } else {
            assert(ys[0] != j);
            assert(is_common(a, b, i, j + 1, xs, ys)) by {
                assert forall|t: int| 0 <= t < xs.len() implies i <= #[trigger] xs[t] < a.len() && j
                    + 1 <= ys[t] < b.len() && a[xs[t]] == b[ys[t]] by {
                    if t > 0 {
                        assert(xs[0] < xs[t] && ys[0] < ys[t]);
                    }
                }
            }
            law_lcs_bounds_every_common_subsequence(a, b, i, j + 1, xs, ys);
        }
    }
}

/// Some common subsequence is as long as `lcs_len` says.
pub proof fn law_lcs_is_attained(a: Seq<Seq<char>>, b: Seq<Seq<char>>, i: int, j: int) -> (r: (
    Seq<int>,
    Seq<int>,
))
    requires
        0 <= i <= a.len(),
        0 <= j <= b.len(),
    ensures
        is_common(a, b, i, j, r.0, r.1),
        r.0.len() == lcs_len(a, b, i, j),
    decreases a.len() - i + b.len() - j,
{
    if i >= a.len() || j >= b.len() {
        (Seq::empty(), Seq::empty())
    } else if a[i] == b[j] {
        let (xt, yt) = law_lcs_is_attained(a, b, i + 1, j + 1);
        let xs = seq![i] + xt;
        let ys = seq![j] + yt;
        assert(is_common(a, b, i, j, xs, ys)) by {
            assert(xs.len() == ys.len());
            assert forall|t: int| 0 <= t < xs.len() implies i <= #[trigger] xs[t] < a.len() && j
                <= ys[t] < b.len() && a[xs[t]] == b[ys[t]] by {
                if t > 0 {
                    assert(xs[t] == xt[t - 1] && ys[t] == yt[t - 1]);
                    assert(i + 1 <= xt[t - 1] < a.len());
                } else {
                    assert(xs[0] == i && ys[0] == j);
                }
            }
            assert forall|s: int, t: int| 0 <= s < t < xs.len() implies #[trigger] xs[s]
                < #[trigger] xs[t] && ys[s] < ys[t] by {
                assert(xs[t] == xt[t - 1] && ys[t] == yt[t - 1]);
                assert(i + 1 <= xt[t - 1] < a.len());
                if s > 0 {
                    assert(xs[s] == xt[s - 1] && ys[s] == yt[s - 1]);
                    assert(xt[s - 1] < xt[t - 1] && yt[s - 1] < yt[t - 1]);
                } else {
                    assert(xs[0] == i && ys[0] == j);
                }
            }
        }
        (xs, ys)
    } else if lcs_len(a, b, i + 1, j) >= lcs_len(a, b, i, j + 1) {
        let (xs, ys) = law_lcs_is_attained(a, b, i + 1, j);
        assert(is_common(a, b, i, j, xs, ys)) by {
            assert forall|t: int| 0 <= t < xs.len() implies i <= #[trigger] xs[t] < a.len() && j
                <= ys[t] < b.len() && a[xs[t]] == b[ys[t]] by {
                assert(i + 1 <= xs[t] < a.len());
            }
        }
        (xs, ys)
    } else {
        let (xs, ys) = law_lcs_is_attained(a, b, i, j + 1);
        assert(is_common(a, b, i, j + 1, xs, ys));
        assert(xs.len() == ys.len());
        assert forall|t: int| 0 <= t < xs.len() implies i <= #[trigger] xs[t] < a.len() && j
            <= ys[t] < b.len() && a[xs[t]] == b[ys[t]] by {
            assert(i <= xs[t] < a.len() && j + 1 <= ys[t] < b.len());
        }
        assert forall|s: int, t: int| 0 <= s < t < xs.len() implies #[trigger] xs[s]
            < #[trigger] xs[t] && ys[s] < ys[t] by {
            assert(xs[s] < xs[t] && ys[s] < ys[t]);
        }
        assert(is_common(a, b, i, j, xs, ys));
        (xs, ys)
    }
}

/// The walk takes every line of both sides once, but for the lines of a
/// longest common subsequence, which it takes once for both.
pub proof fn law_walk_length(a: Seq<Seq<char>>, b: Seq<Seq<char>>, i: int, j: int)
    requires
        0 <= i <= a.len(),
        0 <= j <= b.len(),
    ensures
        merge_walk(a, b, i, j).len() == (a.len() - i) + (b.len() - j) - lcs_len(a, b, i, j),
    decreases a.len() - i + b.len() - j,
{
    if i < a.len() && j < b.len() {
        if a[i] == b[j] {
            law_walk_length(a, b, i + 1, j + 1);
        } else if lcs_len(a, b, i + 1, j) >= lcs_len(a, b, i, j + 1) {
            law_walk_length(a, b, i + 1, j);
        } else {
            law_walk_length(a, b, i, j + 1);
        }
    }
}

/// The lines of `part` occur in `whole` in their order.
pub open spec fn occurs_in_order(part: Seq<Seq<char>>, whole: Seq<Seq<char>>) -> bool
    decreases whole.len(),
{
    if part.len() == 0 {
        true
    } else if whole.len() == 0 {
        false
    } else if part[0] == whole[0] {
        occurs_in_order(part.skip(1), whole.skip(1))
    } else {
        occurs_in_order(part, whole.skip(1))
    }
}

proof fn lemma_occurs_in_itself(l: Seq<Seq<char>>)
    ensures
        occurs_in_order(l, l),
    decreases l.len(),
{
    if l.len() > 0 {
        lemma_occurs_in_itself(l.skip(1));
    }
}

/// The walk keeps the order of each side: the lines of the old sequence
/// occur in it in their order, and so do the lines of the proposed one.
pub proof fn law_walk_keeps_order(a: Seq<Seq<char>>, b: Seq<Seq<char>>, i: int, j: int)
    requires
        0 <= i <= a.len(),
        0 <= j <= b.len(),
    ensures
        occurs_in_order(a.skip(i), merge_walk(a, b, i, j)),
        occurs_in_order(b.skip(j), merge_walk(a, b, i, j)),
    decreases a.len() - i + b.len() - j,
{
    let w = merge_walk(a, b, i, j);
    if i == a.len() {
        lemma_occurs_in_itself(b.skip(j));
    } else if j == b.len() {
        lemma_occurs_in_itself(a.skip(i));
    } else {
        let (ni, nj) = if a[i] == b[j] {
            (i + 1, j + 1)
        } else if lcs_len(a, b, i + 1, j) >= lcs_len(a, b, i, j + 1) {
            (i + 1, j)
        } else {
            (i, j + 1)
        };
        law_walk_keeps_order(a, b, ni, nj);
        let rest = merge_walk(a, b, ni, nj);
        assert(w.skip(1) == rest);
        assert(a.skip(i).skip(1) == a.skip(i + 1));
        assert(b.skip(j).skip(1) == b.skip(j + 1));
        assert(a.skip(i)[0] == a[i]);
        assert(b.skip(j)[0] == b[j]);
    }
}


/// A plain text of which no two neighbouring lines are equal merges with
/// itself to itself.
pub proof fn law_merge_with_itself(t: Seq<char>)
    requires
        crate::text::is_plain_text(t),
        no_equal_neighbours(lines_of(t)),
    ensures
        merge_text(t, t) == t,
{
    law_merge_text_idempotent(t);
    crate::text::law_join_undoes_split(t);
}


proof fn lemma_walk_from_sides(a: Seq<Seq<char>>, b: Seq<Seq<char>>, i: int, j: int, x: Seq<char>)
    requires
        0 <= i <= a.len(),
        0 <= j <= b.len(),
        merge_walk(a, b, i, j).contains(x),
    ensures
        a.contains(x) || b.contains(x),
    decreases a.len() - i + b.len() - j,
{
    let w = merge_walk(a, b, i, j);
    let p = choose|p: int| 0 <= p < w.len() && w[p] == x;
    if i == a.len() {
        assert(b[p + j] == x);
    } else if j == b.len() {
        assert(a[p + i] == x);
    } else {
        let (ni, nj) = if a[i] == b[j] {
            (i + 1, j + 1)
        } else if lcs_len(a, b, i + 1, j) >= lcs_len(a, b, i, j + 1) {
            (i + 1, j)
        } else {
            (i, j + 1)
        };
        let rest = merge_walk(a, b, ni, nj);
        if p == 0 {
            assert(w[0] == a[i] || w[0] == b[j]);
        } else {
            assert(rest[p - 1] == x);
            lemma_walk_from_sides(a, b, ni, nj, x);
        }
    }
}

/// A merge invents no line: every line of it is a line of the old
/// sequence or of the proposed one.
pub proof fn law_merge_invents_no_line(old_lines: Seq<Seq<char>>, proposed: Seq<Seq<char>>, x: Seq<char>)
    requires
        merge_lines(old_lines, proposed).contains(x),
    ensures
        old_lines.contains(x) || proposed.contains(x),
{
    lemma_collapse_adds_nothing(merge_walk(old_lines, proposed, 0, 0), x);
    lemma_walk_from_sides(old_lines, proposed, 0, 0, x);
}


/// Where the old text opens with the directive and the task does not ask
/// for its removal, what an additive update writes opens with it too.
pub proof fn law_directive_survives_merge(old_text: Seq<char>, merged: Seq<char>, lowered_task: Seq<char>)
    requires
        has_directive(old_text),
        !wants_directive_removed(lowered_task),
    ensures
        has_directive(restored(old_text, merged, lowered_task)),
{
    if !has_directive(merged) {
        lemma_header_has_directive(merged);
    }
}

/// An additive update loses no line and changes none: what it writes is a
/// sequence of lines, joined by line feeds and ended by one, and every line
/// of the old text is among them as it was.
pub proof fn law_additive_update_keeps_old_lines(
    old_text: Seq<char>,
    content: Seq<char>,
    lowered_task: Seq<char>,
) -> (lines: Seq<Seq<char>>)
    requires
        is_additive_text(lowered_task),
    ensures
        final_text(true, Some(old_text), content, lowered_task) == crate::text::with_final_newline(
            join_lines(lines),
        ),
        forall|k: int|
            0 <= k < lines_of(old_text).len() ==> lines.contains(#[trigger] lines_of(old_text)[k]),
{
    let old_lines = lines_of(old_text);
    let merged_lines = merge_lines(old_lines, lines_of(content));
    let merged = merge_text(old_text, content);
    law_merge_keeps_lines(old_lines, lines_of(content));
    if restored(old_text, merged, lowered_task) == merged {
        merged_lines
    } else {
        reveal_strlit("'use client'\n\n");
        reveal_strlit("'use client'");
        let directive = "'use client'"@;
        let blank = Seq::<char>::empty();
        let lines = seq![directive, blank] + merged_lines;
        assert(old_lines.len() > 0);
        assert(merged_lines.contains(old_lines[0]));
        assert(merged_lines.len() > 0);
        assert(lines == seq![directive] + (seq![blank] + merged_lines));
        crate::text::lemma_join_front(blank, merged_lines);
        crate::text::lemma_join_front(directive, seq![blank] + merged_lines);
        assert(directive_header() == directive + seq!['\n'] + seq!['\n']);
        assert(join_lines(lines) == directive_header() + merged) by {
            assert(directive + seq!['\n'] + (blank + seq!['\n'] + join_lines(merged_lines))
                == directive + seq!['\n'] + seq!['\n'] + join_lines(merged_lines));
        }
        assert forall|k: int| 0 <= k < old_lines.len() implies lines.contains(
            #[trigger] old_lines[k],
        ) by {
            let p = choose|p: int| 0 <= p < merged_lines.len() && merged_lines[p] == old_lines[k];
            assert(lines[p + 2] == old_lines[k]);
        }
        lines
    }
}


proof fn lemma_collapse_last(l: Seq<Seq<char>>)
    requires
        l.len() > 0,
    ensures
        collapse(l).len() > 0,
        collapse(l).last() == l.last(),
{
}

/// Collapsing leaves no two equal neighbours.
pub proof fn law_collapse_has_no_equal_neighbours(l: Seq<Seq<char>>)
    ensures
        no_equal_neighbours(collapse(l)),
    decreases l.len(),
{
    if l.len() > 0 {
        let c = collapse(l.drop_last());
        law_collapse_has_no_equal_neighbours(l.drop_last());
        if !(c.len() > 0 && c.last() == l.last()) {
            let r = c.push(l.last());
            assert forall|k: int| 0 <= k < r.len() - 1 implies #[trigger] r[k] != r[k + 1] by {
                if k < c.len() - 1 {
                    assert(c[k] != c[k + 1]);
                }
            }
        }
    }
}

/// A merge has no two equal neighbouring lines.
pub proof fn law_merge_has_no_equal_neighbours(a: Seq<Seq<char>>, b: Seq<Seq<char>>)
    ensures
        no_equal_neighbours(merge_lines(a, b)),
{
    law_collapse_has_no_equal_neighbours(merge_walk(a, b, 0, 0));
}

/// Collapsing, told from the front: the first line goes where the second
/// equals it, and stays where not.
proof fn lemma_collapse_front(l: Seq<Seq<char>>)
    requires
        l.len() > 0,
    ensures
        collapse(l) == if l.len() > 1 && l[1] == l[0] {
            collapse(l.skip(1))
        } else {
            seq![l[0]] + collapse(l.skip(1))
        },
    decreases l.len(),
{
    let r = l.skip(1);
    let none = Seq::<Seq<char>>::empty();
    assert(collapse(none) == none);
    if l.len() == 1 {
        assert(l.drop_last() == none);
        assert(r == none);
        assert(collapse(l) == none.push(l[0]));
        assert(none.push(l[0]) == seq![l[0]] + none);
    } else {
        let d = l.drop_last();
        lemma_collapse_front(d);
        assert(d.skip(1) == r.drop_last());
        assert(r.last() == l.last());
        let inner = collapse(r.drop_last());
        if l.len() == 2 {
            assert(r.drop_last() == none);
            assert(d.drop_last() == none);
            assert(collapse(d) == none.push(l[0]));
            assert(collapse(r) == none.push(l[1]));
            if l[1] != l[0] {
                assert(collapse(l) == none.push(l[0]).push(l[1]));
                assert(none.push(l[0]).push(l[1]) == seq![l[0]] + none.push(l[1]));
            } else {
                assert(collapse(l) == none.push(l[0]));
            }
        } else {
            assert(d[1] == l[1]);
            lemma_collapse_last(r.drop_last());
            if l[1] != l[0] {
                assert(collapse(d) == seq![l[0]] + inner);
                assert((seq![l[0]] + inner).last() == inner.last());
                if inner.last() != l.last() {
                    assert((seq![l[0]] + inner).push(l.last()) == seq![l[0]] + inner.push(l.last()));
                }
            }
        }
    }
}

proof fn lemma_occurs_without_first(part: Seq<Seq<char>>, whole: Seq<Seq<char>>)
    requires
        part.len() > 0,
        occurs_in_order(part, whole),
    ensures
        occurs_in_order(part.skip(1), whole),
    decreases whole.len(),
{
    let tail = part.skip(1);
    if part[0] != whole[0] {
        lemma_occurs_without_first(part, whole.skip(1));
    }
    if tail.len() > 0 && tail[0] == whole[0] {
        lemma_occurs_without_first(tail, whole.skip(1));
    }
}

proof fn lemma_occurs_behind_first(part: Seq<Seq<char>>, whole: Seq<Seq<char>>)
    requires
        whole.len() > 0,
        occurs_in_order(part, whole.skip(1)),
    ensures
        occurs_in_order(part, whole),
{
    if part.len() > 0 && part[0] == whole[0] {
        lemma_occurs_without_first(part, whole.skip(1));
    }
}

proof fn lemma_occurs_transitive(p: Seq<Seq<char>>, q: Seq<Seq<char>>, w: Seq<Seq<char>>)
    requires
        occurs_in_order(p, q),
        occurs_in_order(q, w),
    ensures
        occurs_in_order(p, w),
    decreases w.len(),
{
    if p.len() > 0 {
        if q[0] == w[0] {
            if p[0] == q[0] {
                lemma_occurs_transitive(p.skip(1), q.skip(1), w.skip(1));
            } else {
                lemma_occurs_transitive(p, q.skip(1), w.skip(1));
            }
        } else {
            lemma_occurs_transitive(p, q, w.skip(1));
            lemma_occurs_behind_first(p, w);
        }
    }
}

proof fn lemma_collapse_occurs(l: Seq<Seq<char>>)
    ensures
        occurs_in_order(collapse(l), l),
    decreases l.len(),
{
    if l.len() > 0 {
        lemma_collapse_front(l);
        lemma_collapse_occurs(l.skip(1));
        let c = collapse(l.skip(1));
        if l.len() > 1 && l[1] == l[0] {
            lemma_occurs_behind_first(c, l);
        } else {
            assert((seq![l[0]] + c).skip(1) == c);
        }
    }
}

proof fn lemma_occurs_in_collapse(part: Seq<Seq<char>>, whole: Seq<Seq<char>>)
    requires
        no_equal_neighbours(part),
        occurs_in_order(part, whole),
    ensures
        occurs_in_order(part, collapse(whole)),
    decreases whole.len(),
{
    if part.len() > 0 {
        lemma_collapse_front(whole);
        let rest = whole.skip(1);
        let c = collapse(rest);
        let tail = part.skip(1);
        assert(no_equal_neighbours(tail)) by {
            assert forall|k: int| 0 <= k < tail.len() - 1 implies #[trigger] tail[k] != tail[k + 1] by {
                assert(part[k + 1] != part[k + 1 + 1]);
            }
        }
        if whole.len() > 1 && whole[1] == whole[0] {
            assert(rest[0] == whole[1]);
            if part[0] == whole[0] {
                assert(occurs_in_order(tail, rest));
                if tail.len() > 0 {
                    assert(part[0int] != part[0int + 1]);
                    assert(tail[0] == part[1]);
                    assert(tail[0] != rest[0]);
                }
                assert(occurs_in_order(tail, rest.skip(1)));
                assert(occurs_in_order(part, rest));
            } else {
                assert(occurs_in_order(part, rest));
            }
            lemma_occurs_in_collapse(part, rest);
        } else {
            assert((seq![whole[0]] + c).skip(1) == c);
            if part[0] == whole[0] {
                lemma_occurs_in_collapse(tail, rest);
            } else {
                lemma_occurs_in_collapse(part, rest);
            }
        }
    }
}

/// A merge keeps the order of each side: the lines of the old sequence,
/// runs of equal neighbours taken as one line, occur in it in their order,
/// and so do the lines of the proposed one.
pub proof fn law_merge_keeps_order(a: Seq<Seq<char>>, b: Seq<Seq<char>>)
    ensures
        occurs_in_order(collapse(a), merge_lines(a, b)),
        occurs_in_order(collapse(b), merge_lines(a, b)),
{
    let walk = merge_walk(a, b, 0, 0);
    law_walk_keeps_order(a, b, 0, 0);
    assert(a.skip(0) == a);
    assert(b.skip(0) == b);
    lemma_collapse_occurs(a);
    lemma_occurs_transitive(collapse(a), a, walk);
    law_collapse_has_no_equal_neighbours(a);
    lemma_occurs_in_collapse(collapse(a), walk);
    lemma_collapse_occurs(b);
    lemma_occurs_transitive(collapse(b), b, walk);
    law_collapse_has_no_equal_neighbours(b);
    lemma_occurs_in_collapse(collapse(b), walk);
}

} // verus!
