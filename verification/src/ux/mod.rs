use crate::text::{
    chars_of, lines_view, same_chars, slice_of, split_words, string_of, trim, trim_chars, words_of,
};
use crate::wire::{steps_view, Plan, Step, StepView};
use vstd::prelude::*;

verus! {

/// A decimal digit.
pub open spec fn is_digit(c: char) -> bool {
    '0' <= c && c <= '9'
}

/// Every character is a decimal digit.
pub open spec fn all_digits(d: Seq<char>) -> bool {
    forall|i: int| 0 <= i < d.len() ==> is_digit(#[trigger] d[i])
}

/// The number that a sequence of decimal digits writes.
pub open spec fn digits_value(d: Seq<char>) -> int
    decreases d.len(),
{
    if d.len() == 0 {
        0
    } else {
        digits_value(d.drop_last()) * 10 + (d.last() as int - '0' as int)
    }
}

/// The digits of a word that may start with a plus sign.
pub open spec fn unsigned_part(w: Seq<char>) -> Seq<char> {
    if w.len() > 0 && w[0] == '+' {
        w.skip(1)
    } else {
        w
    }
}

/// The number that a word writes: decimal digits, at least one, after an
/// optional plus sign, and not beyond the largest index there is.
pub open spec fn number_of(w: Seq<char>) -> Option<usize> {
    let d = unsigned_part(w);
    if d.len() > 0 && all_digits(d) && digits_value(d) <= usize::MAX {
        Some(digits_value(d) as usize)
    } else {
        None
    }
}

/// The position that a word names in a list of `len` steps, counted from
/// zero, where the word is a number from 1 to `len`.
pub open spec fn position_of(w: Seq<char>, len: nat) -> Option<int> {
    match number_of(w) {
        Some(n) => if 1 <= n <= len {
            Some(n - 1)
        } else {
            None
        },
        None => None,
    }
}

/// The positions that the words from the second on, among the first `n`,
/// name in a list of `len` steps.
pub open spec fn positions(words: Seq<Seq<char>>, n: int, len: nat) -> Seq<int>
    decreases n,
{
    if n <= 1 {
        Seq::empty()
    } else {
        match position_of(words[n - 1], len) {
            Some(p) => positions(words, n - 1, len).push(p),
            None => positions(words, n - 1, len),
        }
    }
}

/// The steps at the positions given, in that order.
pub open spec fn picked(steps: Seq<StepView>, order: Seq<int>) -> Seq<StepView> {
    Seq::new(order.len(), |k: int| steps[order[k]])
}

/// The first `n` steps without those at the positions given.
pub open spec fn without(steps: Seq<StepView>, gone: Seq<int>, n: int) -> Seq<StepView>
    decreases n,
{
    if n <= 0 {
        Seq::empty()
    } else if gone.contains(n - 1) {
        without(steps, gone, n - 1)
    } else {
        without(steps, gone, n - 1).push(steps[n - 1])
    }
}

/// The step with another title.
pub open spec fn with_title(s: StepView, t: Seq<char>) -> StepView {
    match s {
        StepView::Create { id, title, path, language, content } => StepView::Create {
            id,
            title: t,
            path,
            language,
            content,
        },
        StepView::Update { id, title, path, patch, content } => StepView::Update {
            id,
            title: t,
            path,
            patch,
            content,
        },
        StepView::Delete { id, title, path } => StepView::Delete { id, title: t, path },
        StepView::Command { id, title, command, cwd } => StepView::Command {
            id,
            title: t,
            command,
            cwd,
        },
        StepView::Test { id, title, command } => StepView::Test { id, title: t, command },
    }
}

/// The number of characters up to and with the `n`th space of `s`; the
/// length of `s` where it has fewer spaces.
pub open spec fn after_spaces(s: Seq<char>, n: nat) -> int
    decreases s.len(),
{
    if n == 0 || s.len() == 0 {
        0
    } else if s[0] == ' ' {
        1 + after_spaces(s.skip(1), (n - 1) as nat)
    } else {
        1 + after_spaces(s.skip(1), n)
    }
}

/// The title that an edit line gives: what follows its second space,
/// without the white space around it.
pub open spec fn title_in(line: Seq<char>) -> Seq<char> {
    trim(line.skip(after_spaces(line, 2)))
}

/// What an edit line did.
#[derive(Debug, Clone, Copy, PartialEq, Eq, Structural)]
pub enum EditOutcome {
    /// The line was blank.
    Blank,
    /// The steps were put into the order given.
    Reordered,
    /// The order did not name every step exactly once.
    InvalidOrder,
    /// No step that there is was named to drop.
    NothingToDrop,
    /// So many steps were dropped.
    Dropped(usize),
    /// The step at this position, counted from zero, has a new title.
    Retitled(usize),
    /// The title was missing.
    TitleMissing,
    /// The position is not in the plan.
    OutOfRange,
    /// The line asked nothing that could be read.
    Ignored,
    /// The plan is to be shown.
    Show,
    /// The editing is over.
    Done,
    /// The command is not known.
    Unknown,
}

/// What an edit line makes of the steps of a plan, and what it did. The
/// line is read without the white space around it; its first word is the
/// command. `order` takes the positions, from 1, of all steps, each once;
/// `drop` takes the positions of the steps that go; `title` takes a
/// position and the new title.
pub open spec fn edited(steps: Seq<StepView>, line: Seq<char>) -> (Seq<StepView>, EditOutcome) {
    let text = trim(line);
    let words = words_of(text);
    if words.len() == 0 {
        (steps, EditOutcome::Blank)
    } else if words[0] == "order"@ {
        let order = positions(words, words.len() as int, steps.len());
        if order.len() == steps.len() && order.no_duplicates() {
            (picked(steps, order), EditOutcome::Reordered)
        } else {
            (steps, EditOutcome::InvalidOrder)
        }
    } else if words[0] == "drop"@ {
        let gone = positions(words, words.len() as int, steps.len());
        if gone.len() == 0 {
            (steps, EditOutcome::NothingToDrop)
        } else {
            let kept = without(steps, gone, steps.len() as int);
            (kept, EditOutcome::Dropped((steps.len() - kept.len()) as usize))
        }
    } else if words[0] == "title"@ {
        if words.len() < 2 || number_of(words[1]) is None {
            (steps, EditOutcome::Ignored)
        } else {
            match position_of(words[1], steps.len()) {
                None => (steps, EditOutcome::OutOfRange),
                Some(p) => if title_in(text).len() == 0 {
                    (steps, EditOutcome::TitleMissing)
                } else {
                    (
                        steps.update(p, with_title(steps[p], title_in(text))),
                        EditOutcome::Retitled(p as usize),
                    )
                },
            }
        }
    } else if words[0] == "show"@ {
        (steps, EditOutcome::Show)
    } else if words[0] == "done"@ {
        (steps, EditOutcome::Done)
    } else {
        (steps, EditOutcome::Unknown)
    }
}

proof fn lemma_digits_grow(d: Seq<char>, k: int)
    requires
        all_digits(d),
        0 <= k <= d.len(),
    ensures
        0 <= digits_value(d.take(k)) <= digits_value(d),
    decreases d.len() - k,
{
    lemma_digits_nonnegative(d.take(k));
    if k < d.len() {
        lemma_digits_grow(d, k + 1);
        assert(d.take(k + 1).drop_last() == d.take(k));
        assert(is_digit(d[k]));
        assert(d.take(k + 1).last() == d[k]);
    } else {
        assert(d.take(k) == d);
    }
}

proof fn lemma_digits_nonnegative(d: Seq<char>)
    requires
        all_digits(d),
    ensures
        digits_value(d) >= 0,
    decreases d.len(),
{
    if d.len() > 0 {
        assert(is_digit(d[d.len() - 1]));
        lemma_digits_nonnegative(d.drop_last());
    }
}

/// The number that a word writes.
pub fn parse_number(w: &Vec<char>) -> (r: Option<usize>)
    ensures
        r == number_of(w@),
{
    let first: usize = if w.len() > 0 && w[0] == '+' {
        1
    } else {
        0
    };
    let ghost d = unsigned_part(w@);
    assert(d == w@.skip(first as int));
    if first >= w.len() {
        return None;
    }
    let mut value: usize = 0;
    let mut i: usize = first;
    assert(d.take(0) == Seq::<char>::empty());
    while i < w.len()
        invariant
            first <= i <= w.len(),
            d == w@.skip(first as int),
            d == unsigned_part(w@),
            all_digits(d.take(i - first)),
            value == digits_value(d.take(i - first)),
        decreases w.len() - i,
    {
        let c = w[i];
        assert(d[i - first] == c);
        if !('0' <= c && c <= '9') {
            assert(!all_digits(d));
            return None;
        }
        let digit: usize = (c as u32 - '0' as u32) as usize;
        proof {
            assert(d.take(i - first + 1).drop_last() == d.take(i - first));
            assert(d.take(i - first + 1).last() == c);
            assert(all_digits(d.take(i - first + 1))) by {
                assert forall|q: int| 0 <= q < i - first + 1 implies is_digit(
                    #[trigger] d.take(i - first + 1)[q],
                ) by {
                    if q < i - first {
                        assert(d.take(i - first)[q] == d[q]);
                    }
                }
            }
            if all_digits(d) {
                lemma_digits_grow(d, i - first + 1);
            }
        }
        if value > (usize::MAX - digit) / 10 {
            assert(value * 10 + digit > usize::MAX) by (nonlinear_arith)
                requires
                    value > (usize::MAX - digit) / 10,
                    digit <= usize::MAX,
            ;
            return None;
        }
        assert(value * 10 + digit <= usize::MAX) by (nonlinear_arith)
            requires
                value <= (usize::MAX - digit) / 10,
                digit <= usize::MAX,
        ;
        value = value * 10 + digit;
        i += 1;
    }
    assert(d.take(w.len() - first) == d);
    Some(value)
}

fn parse_position(w: &Vec<char>, len: usize) -> (r: Option<usize>)
    ensures
        match position_of(w@, len as nat) {
            Some(p) => r == Some(p as usize) && 0 <= p < len,
            None => r is None,
        },
{
    match parse_number(w) {
        Some(n) => if 1 <= n && n <= len {
            Some(n - 1)
        } else {
            None
        },
        None => None,
    }
}

/// The positions as mathematical integers.
pub open spec fn as_ints(v: Seq<usize>) -> Seq<int> {
    v.map_values(|p: usize| p as int)
}

fn parse_positions(words: &Vec<Vec<char>>, len: usize) -> (r: Vec<usize>)
    ensures
        as_ints(r@) == positions(lines_view(words@), words.len() as int, len as nat),
        forall|k: int| 0 <= k < r.len() ==> r@[k] < len,
{
    let ghost wv = lines_view(words@);
    let mut out: Vec<usize> = Vec::new();
    assert(as_ints(out@) == Seq::<int>::empty());
    if words.len() <= 1 {
        return out;
    }
    let mut i: usize = 1;
    while i < words.len()
        invariant
            1 <= i <= words.len(),
            wv == lines_view(words@),
            as_ints(out@) == positions(wv, i as int, len as nat),
            forall|k: int| 0 <= k < out.len() ==> out@[k] < len,
        decreases words.len() - i,
    {
        assert(wv[i as int] == words@[i as int]@);
        match parse_position(&words[i], len) {
            Some(p) => {
                assert(as_ints(out@.push(p)) == as_ints(out@).push(p as int));
                out.push(p);
            },
            None => {},
        }
        i += 1;
    }
    out
}

fn has_position(v: &Vec<usize>, upto: usize, p: usize) -> (r: bool)
    requires
        upto <= v.len(),
    ensures
        r == as_ints(v@).take(upto as int).contains(p as int),
{
    let ghost iv = as_ints(v@).take(upto as int);
    let mut i: usize = 0;
    while i < upto
        invariant
            i <= upto <= v.len(),
            iv == as_ints(v@).take(upto as int),
            forall|q: int| 0 <= q < i ==> iv[q] != p,
        decreases upto - i,
    {
        assert(iv[i as int] == v@[i as int]);
        if v[i] == p {
            return true;
        }
        i += 1;
    }
    false
}

/// Whether no position occurs twice.
pub fn uniq(v: &Vec<usize>) -> (r: bool)
    ensures
        r == as_ints(v@).no_duplicates(),
{
    let ghost iv = as_ints(v@);
    let mut i: usize = 0;
    while i < v.len()
        invariant
            i <= v.len(),
            iv == as_ints(v@),
            iv.take(i as int).no_duplicates(),
        decreases v.len() - i,
    {
        if has_position(v, i, v[i]) {
            proof {
                let q = choose|q: int| 0 <= q < i && iv.take(i as int)[q] == v@[i as int];
                assert(iv[q] == iv[i as int] && q != i);
            }
            return false;
        }
        proof {
            let t = iv.take(i + 1);
            assert forall|a: int, b: int| 0 <= a < t.len() && 0 <= b < t.len() && a != b implies #[trigger] t[a]
                != #[trigger] t[b] by {
                if a < i && b < i {
                    assert(iv.take(i as int)[a] != iv.take(i as int)[b]);
                } else if a == i {
                    assert(iv.take(i as int)[b] != iv[i as int]);
                } else {
                    assert(iv.take(i as int)[a] != iv[i as int]);
                }
            }
        }
        i += 1;
    }
    assert(iv.take(v.len() as int) == iv);
    true
}

fn retitled(step: &Step, t: String) -> (r: Step)
    ensures
        r@ == with_title(step@, t@),
{
    let s = step.clone();
    match s {
        Step::Create { id, title, path, language, content } => Step::Create {
            id,
            title: t,
            path,
            language,
            content,
        },
        Step::Update { id, title, path, patch, content } => Step::Update {
            id,
            title: t,
            path,
            patch,
            content,
        },
        Step::Delete { id, title, path } => Step::Delete { id, title: t, path },
        Step::Command { id, title, command, cwd } => Step::Command { id, title: t, command, cwd },
        Step::Test { id, title, command } => Step::Test { id, title: t, command },
    }
}

fn title_text(line: &Vec<char>) -> (r: Vec<char>)
    ensures
        r@ == title_in(line@),
{
    let n = line.len();
    let mut i: usize = 0;
    let mut left: usize = 2;
    assert(line@.skip(0) == line@);
    while i < n && left > 0
        invariant
            i <= n == line.len(),
            left <= 2,
            after_spaces(line@, 2) == i + after_spaces(line@.skip(i as int), left as nat),
        decreases n - i,
    {
        assert(line@.skip(i as int).skip(1) == line@.skip(i + 1));
        if line[i] == ' ' {
            left -= 1;
        }
        i += 1;
    }
    trim_chars(&slice_of(line, i, n))
}

/// Applies one line of the plan editor to a plan, and says what it did.
pub fn edit(plan: Plan, line: &str) -> (r: (Plan, EditOutcome))
    ensures
        r.0@.summary == plan@.summary,
        (r.0@.steps, r.1) == edited(plan@.steps, line@),
{
    let ghost sv = plan@.steps;
    let text = trim_chars(&chars_of(line));
    let words = split_words(&text);
    let ghost wv = lines_view(words@);
    if words.len() == 0 {
        return (plan, EditOutcome::Blank);
    }
    assert(wv[0] == words@[0]@);
    let n = plan.steps.len();
    if same_chars(&words[0], &chars_of("order")) {
        let order = parse_positions(&words, n);
        if order.len() == n && uniq(&order) {
            let ghost want = picked(sv, as_ints(order@));
            let mut steps: Vec<Step> = Vec::new();
            let mut k: usize = 0;
            while k < order.len()
                invariant
                    k <= order.len(),
                    sv == steps_view(plan.steps@),
                    n == plan.steps.len(),
                    forall|q: int| 0 <= q < order.len() ==> order@[q] < n,
                    want == picked(sv, as_ints(order@)),
                    steps_view(steps@) == want.take(k as int),
                decreases order.len() - k,
            {
                let s = plan.steps[order[k]].clone();
                assert(sv[order@[k as int] as int] == s@);
                assert(steps_view(steps@.push(s)) == steps_view(steps@).push(s@));
                assert(want.take(k + 1) == want.take(k as int).push(want[k as int]));
                steps.push(s);
                k += 1;
            }
            assert(want.take(order.len() as int) == want);
            (Plan { summary: plan.summary, steps }, EditOutcome::Reordered)
        } else {
            (plan, EditOutcome::InvalidOrder)
        }
    } else if same_chars(&words[0], &chars_of("drop")) {
        let gone = parse_positions(&words, n);
        if gone.len() == 0 {
            (plan, EditOutcome::NothingToDrop)
        } else {
            let ghost gv = as_ints(gone@);
            let mut steps: Vec<Step> = Vec::new();
            let mut k: usize = 0;
            assert(steps_view(steps@) == without(sv, gv, 0));
            while k < n
                invariant
                    k <= n == plan.steps.len(),
                    sv == steps_view(plan.steps@),
                    gv == as_ints(gone@),
                    steps_view(steps@) == without(sv, gv, k as int),
                    steps.len() <= k,
                decreases n - k,
            {
                assert(gv.take(gone.len() as int) == gv);
                if !has_position(&gone, gone.len(), k) {
                    let s = plan.steps[k].clone();
                    assert(sv[k as int] == s@);
                    assert(steps_view(steps@.push(s)) == steps_view(steps@).push(s@));
                    steps.push(s);
                }
                k += 1;
            }
            let dropped = n - steps.len();
            (Plan { summary: plan.summary, steps }, EditOutcome::Dropped(dropped))
        }
    } else if same_chars(&words[0], &chars_of("title")) {
        if words.len() < 2 {
            return (plan, EditOutcome::Ignored);
        }
        assert(wv[1] == words@[1]@);
        if parse_number(&words[1]).is_none() {
            return (plan, EditOutcome::Ignored);
        }
        match parse_position(&words[1], n) {
            None => (plan, EditOutcome::OutOfRange),
            Some(p) => {
                let title = title_text(&text);
                if title.len() == 0 {
                    (plan, EditOutcome::TitleMissing)
                } else {
                    let mut steps = plan.steps;
                    let s = retitled(&steps[p], string_of(&title));
                    assert(sv[p as int] == steps@[p as int]@);
                    assert(steps_view(steps@.update(p as int, s)) == sv.update(p as int, s@));
                    steps.set(p, s);
                    (Plan { summary: plan.summary, steps }, EditOutcome::Retitled(p))
                }
            },
        }
    } else if same_chars(&words[0], &chars_of("show")) {
        (plan, EditOutcome::Show)
    } else if same_chars(&words[0], &chars_of("done")) {
        (plan, EditOutcome::Done)
    } else {
        (plan, EditOutcome::Unknown)
    }
}

} // verus!
