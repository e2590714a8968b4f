use crate::errors::{VibeError, VibeErrorView};
use crate::wire::{steps_view, Plan, Step, StepView};
use crate::text::strings_view;
use vstd::prelude::*;

verus! {

/// An update that carries neither content nor patch.
pub open spec fn is_malformed(s: StepView) -> bool {
    match s {
        StepView::Update { patch, content, .. } => patch is None && content is None,
        _ => false,
    }
}

/// An update that carries content or a patch.
pub open spec fn is_live_update(s: StepView) -> bool {
    s is Update && !is_malformed(s)
}

/// An update that carries content.
pub open spec fn carries_content(s: StepView) -> bool {
    match s {
        StepView::Update { content, .. } => content is Some,
        _ => false,
    }
}

/// Step `j` is an update to the path of update `i` that is preferred to it:
/// it carries content where `i` does not, or it is the later of two that
/// are alike in that.
pub open spec fn outranks(steps: Seq<StepView>, j: int, i: int) -> bool {
    &&& 0 <= j < steps.len()
    &&& 0 <= i < steps.len()
    &&& j != i
    &&& steps[i] is Update
    &&& is_live_update(steps[j])
    &&& steps[j].path() == steps[i].path()
    &&& ((carries_content(steps[j]) && !carries_content(steps[i])) || (carries_content(steps[j])
        == carries_content(steps[i]) && j > i))
}

/// Step `i` is the update that is kept for its path.
pub open spec fn wins(steps: Seq<StepView>, i: int) -> bool {
    is_live_update(steps[i]) && forall|j: int| !outranks(steps, j, i)
}

/// Step `j` is a create, or a delete, as step `i` is, for the same path.
pub open spec fn same_action_and_path(steps: Seq<StepView>, j: int, i: int) -> bool {
    &&& 0 <= j < steps.len()
    &&& 0 <= i < steps.len()
    &&& ((steps[j] is Create && steps[i] is Create) || (steps[j] is Delete && steps[i] is Delete))
    &&& steps[j].path() == steps[i].path()
}

/// An earlier step is a create, or a delete, as step `i` is, for the same path.
pub open spec fn repeats_earlier(steps: Seq<StepView>, i: int) -> bool {
    exists|j: int| 0 <= j < i && same_action_and_path(steps, j, i)
}

/// Whether step `i` stays in the plan: the one preferred update of each
/// path, the first create and the first delete of each path, and every
/// command and test.
pub open spec fn keeps(steps: Seq<StepView>, i: int) -> bool {
    match steps[i] {
        StepView::Update { .. } => wins(steps, i),
        StepView::Create { .. } => !repeats_earlier(steps, i),
        StepView::Delete { .. } => !repeats_earlier(steps, i),
        _ => true,
    }
}

/// The steps among the first `n` that stay, in their order.
pub open spec fn kept_prefix(steps: Seq<StepView>, n: int) -> Seq<StepView>
    decreases n,
{
    if n <= 0 {
        Seq::empty()
    } else if keeps(steps, n - 1) {
        kept_prefix(steps, n - 1).push(steps[n - 1])
    } else {
        kept_prefix(steps, n - 1)
    }
}

/// The steps that stay, in their order.
pub open spec fn kept_steps(steps: Seq<StepView>) -> Seq<StepView> {
    kept_prefix(steps, steps.len() as int)
}

/// The path that a warning names.
pub open spec fn named_path(s: StepView) -> Seq<char> {
    match s.path() {
        Some(p) => p,
        None => Seq::empty(),
    }
}

/// The warning for an update without content and patch.
pub open spec fn malformed_warning(s: StepView) -> Seq<char> {
    "dropped update for "@ + named_path(s) + " (no content or patch)"@
}

/// The warning for a step that repeats another.
pub open spec fn duplicate_warning(s: StepView) -> Seq<char> {
    match s {
        StepView::Create { .. } => "dropped duplicate create for "@ + named_path(s),
        StepView::Delete { .. } => "dropped duplicate delete for "@ + named_path(s),
        _ => "dropped duplicate update for "@ + named_path(s),
    }
}

/// The warnings for the malformed updates among the first `n` steps.
pub open spec fn malformed_warnings(steps: Seq<StepView>, n: int) -> Seq<Seq<char>>
    decreases n,
{
    if n <= 0 {
        Seq::empty()
    } else if is_malformed(steps[n - 1]) {
        malformed_warnings(steps, n - 1).push(malformed_warning(steps[n - 1]))
    } else {
        malformed_warnings(steps, n - 1)
    }
}

/// The warnings for the well-formed steps among the first `n` that do not stay.
pub open spec fn duplicate_warnings(steps: Seq<StepView>, n: int) -> Seq<Seq<char>>
    decreases n,
{
    if n <= 0 {
        Seq::empty()
    } else if !keeps(steps, n - 1) && !is_malformed(steps[n - 1]) {
        duplicate_warnings(steps, n - 1).push(duplicate_warning(steps[n - 1]))
    } else {
        duplicate_warnings(steps, n - 1)
    }
}

/// One warning for each step that does not stay: first those for the
/// malformed updates, then those for the repeated steps, each group in the
/// order of the plan.
pub open spec fn warnings(steps: Seq<StepView>) -> Seq<Seq<char>> {
    malformed_warnings(steps, steps.len() as int) + duplicate_warnings(steps, steps.len() as int)
}

/// The plan of a response, where it holds one.
pub fn validate_and_extract(p: Option<&Plan>) -> (r: Result<Plan, VibeError>)
    ensures
        match p {
            Some(x) => r is Ok && r->Ok_0@ == x@,
            None => r is Err && r->Err_0@ == VibeErrorView::Schema("missing plan"@),
        },
{
    match p {
        Some(x) => Ok(x.clone()),
        None => Err(VibeError::Schema("missing plan".to_owned())),
    }
}

/// The plan of a response, where it holds one.
pub fn coerce(p: Option<&Plan>) -> (r: Result<Plan, VibeError>)
    ensures
        match p {
            Some(x) => r is Ok && r->Ok_0@ == x@,
            None => r is Err && r->Err_0@ == VibeErrorView::Schema("missing plan"@),
        },
{
    validate_and_extract(p)
}

fn is_malformed_step(s: &Step) -> (r: bool)
    ensures
        r == is_malformed(s@),
{
    match s {
        Step::Update { patch, content, .. } => patch.is_none() && content.is_none(),
        _ => false,
    }
}

/// Whether another update to the path of update `i` is preferred to it.
fn is_outranked(steps: &Vec<Step>, i: usize) -> (r: bool)
    requires
        i < steps.len(),
    ensures
        r == exists|j: int| outranks(steps_view(steps@), j, i as int),
{
    let ghost sv = steps_view(steps@);
    assert(sv[i as int] == steps@[i as int]@);
    match &steps[i] {
        Step::Update { path, content, .. } => {
            let mine = content.is_some();
            let mut j: usize = 0;
            while j < steps.len()
                invariant
                    j <= steps.len(),
                    i < steps.len(),
                    sv == steps_view(steps@),
                    sv[i as int] == steps@[i as int]@,
                    steps@[i as int] is Update,
                    path@ == sv[i as int].path()->0,
                    mine == carries_content(sv[i as int]),
                    forall|q: int| 0 <= q < j ==> !outranks(sv, q, i as int),
                decreases steps.len() - j,
            {
                assert(sv[j as int] == steps@[j as int]@);
                if j != i {
                    match &steps[j] {
                        Step::Update { path: other, content: theirs, patch, .. } => {
                            let live = theirs.is_some() || patch.is_some();
                            let better = (theirs.is_some() && !mine) || (theirs.is_some() == mine
                                && j > i);
                            if live && better && *other == *path {
                                assert(outranks(sv, j as int, i as int));
                                return true;
                            }
                        },
                        _ => {},
                    }
                }
                j += 1;
            }
            false
        },
        _ => false,
    }
}

/// Whether an earlier step is a create, or a delete, as step `i` is, for
/// the same path.
fn has_earlier_twin(steps: &Vec<Step>, i: usize) -> (r: bool)
    requires
        i < steps.len(),
    ensures
        r == repeats_earlier(steps_view(steps@), i as int),
{
    let ghost sv = steps_view(steps@);
    assert(sv[i as int] == steps@[i as int]@);
    let mut j: usize = 0;
    while j < i
        invariant
            j <= i < steps.len(),
            sv == steps_view(steps@),
            sv[i as int] == steps@[i as int]@,
            forall|q: int| 0 <= q < j ==> !same_action_and_path(sv, q, i as int),
        decreases i - j,
    {
        assert(sv[j as int] == steps@[j as int]@);
        let twin = match (&steps[j], &steps[i]) {
            (Step::Create { path: a, .. }, Step::Create { path: b, .. }) => *a == *b,
            (Step::Delete { path: a, .. }, Step::Delete { path: b, .. }) => *a == *b,
            _ => false,
        };
        if twin {
            assert(same_action_and_path(sv, j as int, i as int));
            return true;
        }
        j += 1;
    }
    false
}

/// Whether step `i` stays in the plan.
fn stays(steps: &Vec<Step>, i: usize) -> (r: bool)
    requires
        i < steps.len(),
    ensures
        r == keeps(steps_view(steps@), i as int),
{
    assert(steps_view(steps@)[i as int] == steps@[i as int]@);
    match &steps[i] {
        Step::Update { patch, content, .. } => {
            (patch.is_some() || content.is_some()) && !is_outranked(steps, i)
        },
        Step::Create { .. } => !has_earlier_twin(steps, i),
        Step::Delete { .. } => !has_earlier_twin(steps, i),
        _ => true,
    }
}

fn text_around(before: &str, middle: &str, after: &str) -> (r: String)
    ensures
        r@ == before@ + middle@ + after@,
{
    let mut v = crate::text::chars_of(before);
    crate::text::append_chars(&mut v, &crate::text::chars_of(middle));
    crate::text::append_chars(&mut v, &crate::text::chars_of(after));
    crate::text::string_of(&v)
}

fn path_text(s: &Step) -> (r: String)
    ensures
        r@ == named_path(s@),
{
    match s {
        Step::Create { path, .. } => path.clone(),
        Step::Update { path, .. } => path.clone(),
        Step::Delete { path, .. } => path.clone(),
        _ => String::new(),
    }
}

fn warn_malformed(s: &Step) -> (r: String)
    ensures
        r@ == malformed_warning(s@),
{
    let p = path_text(s);
    text_around("dropped update for ", p.as_str(), " (no content or patch)")
}

fn warn_duplicate(s: &Step) -> (r: String)
    ensures
        r@ == duplicate_warning(s@),
{
    let p = path_text(s);
    let r = match s {
        Step::Create { .. } => text_around("dropped duplicate create for ", p.as_str(), ""),
        Step::Delete { .. } => text_around("dropped duplicate delete for ", p.as_str(), ""),
        _ => text_around("dropped duplicate update for ", p.as_str(), ""),
    };
    proof {
        reveal_strlit("");
        assert(""@ == Seq::<char>::empty());
        assert(r@ == duplicate_warning(s@));
    }
    r
}

/// Reduces a plan to a consistent one. An update without content and patch
/// goes; of the updates to one path the one with content stays, the later
/// of two alike; of the creates of one path, and of its deletes, the first
/// stays; commands and tests stay. What stays keeps its order, and each
/// step that goes leaves one warning.
pub fn sanitize(plan: Plan) -> (r: (Plan, Vec<String>))
    ensures
        r.0@.summary == plan@.summary,
        r.0@.steps == kept_steps(plan@.steps),
        strings_view(r.1@) == warnings(plan@.steps),
{
    let ghost sv = plan@.steps;
    let steps = plan.steps;
    let n = steps.len();
    let mut notes: Vec<String> = Vec::new();
    let mut i: usize = 0;
    assert(strings_view(notes@) == malformed_warnings(sv, 0));
    while i < n
        invariant
            i <= n == steps.len(),
            sv == steps_view(steps@),
            strings_view(notes@) == malformed_warnings(sv, i as int),
        decreases n - i,
    {
        assert(sv[i as int] == steps@[i as int]@);
        if is_malformed_step(&steps[i]) {
            let w = warn_malformed(&steps[i]);
            assert(strings_view(notes@.push(w)) == strings_view(notes@).push(w@));
            notes.push(w);
        }
        i += 1;
    }
    let ghost first = strings_view(notes@);
    let mut out: Vec<Step> = Vec::new();
    let mut k: usize = 0;
    assert(steps_view(out@) == kept_prefix(sv, 0));
    assert(strings_view(notes@) == first + duplicate_warnings(sv, 0));
    while k < n
        invariant
            k <= n == steps.len(),
            sv == steps_view(steps@),
            first == malformed_warnings(sv, n as int),
            steps_view(out@) == kept_prefix(sv, k as int),
            strings_view(notes@) == first + duplicate_warnings(sv, k as int),
        decreases n - k,
    {
        assert(sv[k as int] == steps@[k as int]@);
        if stays(&steps, k) {
            let s = steps[k].clone();
            assert(steps_view(out@.push(s)) == steps_view(out@).push(s@));
            out.push(s);
        } else if !is_malformed_step(&steps[k]) {
            let w = warn_duplicate(&steps[k]);
            assert(strings_view(notes@.push(w)) == strings_view(notes@).push(w@));
            assert((first + duplicate_warnings(sv, k as int)).push(w@) == first
                + duplicate_warnings(sv, k as int).push(w@));
            notes.push(w);
        }
        k += 1;
    }
    (Plan { summary: plan.summary, steps: out }, notes)
}


proof fn lemma_counts(steps: Seq<StepView>, n: int)
    requires
        0 <= n <= steps.len(),
    ensures
        kept_prefix(steps, n).len() + malformed_warnings(steps, n).len() + duplicate_warnings(
            steps,
            n,
        ).len() == n,
    decreases n,
{
    if n > 0 {
        lemma_counts(steps, n - 1);
    }
}

/// Every step either stays or leaves exactly one warning.
pub proof fn law_one_warning_per_drop(steps: Seq<StepView>)
    ensures
        kept_steps(steps).len() + warnings(steps).len() == steps.len(),
{
    lemma_counts(steps, steps.len() as int);
}

/// Of the updates to one path at most one stays.
pub proof fn law_one_update_per_path(steps: Seq<StepView>, i: int, j: int)
    requires
        0 <= i < steps.len(),
        0 <= j < steps.len(),
        steps[i] is Update,
        steps[j] is Update,
        steps[i].path() == steps[j].path(),
        keeps(steps, i),
        keeps(steps, j),
    ensures
        i == j,
{
    if i != j {
        assert(outranks(steps, i, j) || outranks(steps, j, i));
    }
}

/// Of the creates of one path, and of its deletes, at most one stays.
pub proof fn law_one_create_and_delete_per_path(steps: Seq<StepView>, i: int, j: int)
    requires
        0 <= i < j < steps.len(),
        same_action_and_path(steps, i, j),
    ensures
        !keeps(steps, j),
{
}

/// Commands and tests always stay.
pub proof fn law_commands_stay(steps: Seq<StepView>, i: int)
    requires
        0 <= i < steps.len(),
        steps[i] is Command || steps[i] is Test,
    ensures
        keeps(steps, i),
{
}

proof fn lemma_kept_are_steps(steps: Seq<StepView>, n: int, k: int)
    requires
        0 <= n <= steps.len(),
        0 <= k < kept_prefix(steps, n).len(),
    ensures
        exists|i: int| 0 <= i < n && keeps(steps, i) && steps[i] == kept_prefix(steps, n)[k],
    decreases n,
{
    if n > 0 {
        let before = kept_prefix(steps, n - 1);
        if k < before.len() {
            lemma_kept_are_steps(steps, n - 1, k);
            let i = choose|i: int| 0 <= i < n - 1 && keeps(steps, i) && steps[i] == before[k];
            assert(0 <= i < n && keeps(steps, i) && steps[i] == kept_prefix(steps, n)[k]);
        } else {
            assert(keeps(steps, n - 1) && steps[n - 1] == kept_prefix(steps, n)[k]);
        }
    }
}

/// No update without content and patch is left in a sanitized plan.
pub proof fn law_no_malformed_step_stays(steps: Seq<StepView>, k: int)
    requires
        0 <= k < kept_steps(steps).len(),
    ensures
        !is_malformed(kept_steps(steps)[k]),
{
    lemma_kept_are_steps(steps, steps.len() as int, k);
}

/// Of two updates to one path of which only the second carries content, the
/// second stays and the first leaves one warning that names the path.
pub proof fn law_content_update_wins(first: StepView, second: StepView)
    requires
        first is Update,
        second is Update,
        first.path() == second.path(),
        !carries_content(first),
        carries_content(second),
    ensures
        kept_steps(seq![first, second]) == seq![second],
        warnings(seq![first, second]) == seq![
            if is_malformed(first) {
                malformed_warning(first)
            } else {
                duplicate_warning(first)
            },
        ],
{
    let steps = seq![first, second];
    assert(outranks(steps, 1, 0));
    assert(!keeps(steps, 0));
    assert(keeps(steps, 1)) by {
        assert forall|j: int| !outranks(steps, j, 1) by {
            if j == 0 {
                assert(!carries_content(steps[0]));
            }
        }
    }
    reveal_with_fuel(kept_prefix, 3);
    reveal_with_fuel(malformed_warnings, 3);
    reveal_with_fuel(duplicate_warnings, 3);
    assert(kept_prefix(steps, 2) == seq![second]);
    assert(!is_malformed(second));
    if is_malformed(first) {
        assert(malformed_warnings(steps, 2) == seq![malformed_warning(first)]);
        assert(duplicate_warnings(steps, 2) == Seq::<Seq<char>>::empty());
        assert(warnings(steps) == seq![malformed_warning(first)]);
    } else {
        assert(malformed_warnings(steps, 2) == Seq::<Seq<char>>::empty());
        assert(duplicate_warnings(steps, 2) == seq![duplicate_warning(first)]);
        assert(warnings(steps) == seq![duplicate_warning(first)]);
    }
}


/// The preferred update to `path` among the first `n` steps; -1 where
/// there is none.
pub open spec fn champion(steps: Seq<StepView>, path: Seq<char>, n: int) -> int
    decreases n,
{
    if n <= 0 {
        -1
    } else {
        let c = champion(steps, path, n - 1);
        if is_live_update(steps[n - 1]) && steps[n - 1].path() == Some(path) {
            if c >= 0 && carries_content(steps[c]) && !carries_content(steps[n - 1]) {
                c
            } else {
                n - 1
            }
        } else {
            c
        }
    }
}

proof fn lemma_champion(steps: Seq<StepView>, path: Seq<char>, n: int)
    requires
        0 <= n <= steps.len(),
    ensures
        -1 <= champion(steps, path, n) < n,
        champion(steps, path, n) >= 0 ==> is_live_update(steps[champion(steps, path, n)])
            && steps[champion(steps, path, n)].path() == Some(path),
        forall|j: int|
            0 <= j < n && is_live_update(steps[j]) && steps[j].path() == Some(path) ==> champion(
                steps,
                path,
                n,
            ) >= 0 && (j == champion(steps, path, n) || !(carries_content(steps[j])
                && !carries_content(steps[champion(steps, path, n)])) && !(carries_content(steps[j])
                == carries_content(steps[champion(steps, path, n)]) && j > champion(
                steps,
                path,
                n,
            ))),
    decreases n,
{
    if n > 0 {
        lemma_champion(steps, path, n - 1);
    }
}

/// Where a path has an update with content or patch, one update to it stays.
pub proof fn law_some_update_stays(steps: Seq<StepView>, i: int)
    requires
        0 <= i < steps.len(),
        is_live_update(steps[i]),
    ensures
        exists|k: int|
            0 <= k < steps.len() && keeps(steps, k) && steps[k] is Update && steps[k].path()
                == steps[i].path(),
{
    let path = steps[i].path()->0;
    let c = champion(steps, path, steps.len() as int);
    lemma_champion(steps, path, steps.len() as int);
    assert(c >= 0);
    assert forall|j: int| !outranks(steps, j, c) by {
        if 0 <= j < steps.len() && j != c && is_live_update(steps[j]) && steps[j].path()
            == steps[c].path() {
            assert(steps[j].path() == Some(path));
        }
    }
    assert(keeps(steps, c));
}


/// The position in the plan of the step that is the `k`th to stay among
/// the first `n`.
pub open spec fn origin(steps: Seq<StepView>, n: int, k: int) -> int
    decreases n,
{
    if n <= 0 {
        -1
    } else if keeps(steps, n - 1) && k == kept_prefix(steps, n - 1).len() {
        n - 1
    } else {
        origin(steps, n - 1, k)
    }
}

proof fn lemma_origin(steps: Seq<StepView>, n: int, k: int)
    requires
        0 <= n <= steps.len(),
        0 <= k < kept_prefix(steps, n).len(),
    ensures
        0 <= origin(steps, n, k) < n,
        keeps(steps, origin(steps, n, k)),
        steps[origin(steps, n, k)] == kept_prefix(steps, n)[k],
        kept_prefix(steps, origin(steps, n, k)).len() == k,
    decreases n,
{
    if n > 0 {
        if !(keeps(steps, n - 1) && k == kept_prefix(steps, n - 1).len()) {
            lemma_origin(steps, n - 1, k);
        }
    }
}

proof fn lemma_kept_grows(steps: Seq<StepView>, n: int, m: int)
    requires
        0 <= n <= m,
    ensures
        kept_prefix(steps, n).len() <= kept_prefix(steps, m).len(),
        n < m && keeps(steps, n) ==> kept_prefix(steps, n).len() < kept_prefix(steps, m).len(),
    decreases m - n,
{
    if n < m {
        lemma_kept_grows(steps, n, m - 1);
    }
}

proof fn lemma_origin_rises(steps: Seq<StepView>, j: int, k: int)
    requires
        0 <= j < kept_steps(steps).len(),
        0 <= k < kept_steps(steps).len(),
    ensures
        j < k <==> origin(steps, steps.len() as int, j) < origin(steps, steps.len() as int, k),
{
    let n = steps.len() as int;
    lemma_origin(steps, n, j);
    lemma_origin(steps, n, k);
    let oj = origin(steps, n, j);
    let ok = origin(steps, n, k);
    if oj < ok {
        lemma_kept_grows(steps, oj, ok);
    } else if ok < oj {
        lemma_kept_grows(steps, ok, oj);
    }
}

proof fn lemma_kept_of_kept(steps: Seq<StepView>, n: int)
    requires
        0 <= n <= kept_steps(steps).len(),
    ensures
        kept_prefix(kept_steps(steps), n) == kept_steps(steps).take(n),
        malformed_warnings(kept_steps(steps), n).len() == 0,
        duplicate_warnings(kept_steps(steps), n).len() == 0,
    decreases n,
{
    let kept = kept_steps(steps);
    let len = steps.len() as int;
    if n > 0 {
        lemma_kept_of_kept(steps, n - 1);
        let k = n - 1;
        lemma_origin(steps, len, k);
        let ok = origin(steps, len, k);
        assert(keeps(kept, k)) by {
            match kept[k] {
                StepView::Update { .. } => {
                    assert forall|j: int| !outranks(kept, j, k) by {
                        if 0 <= j < kept.len() && j != k {
                            lemma_origin(steps, len, j);
                            lemma_origin_rises(steps, j, k);
                            lemma_origin_rises(steps, k, j);
                            let oj = origin(steps, len, j);
                            assert(!outranks(steps, oj, ok));
                        }
                    }
                },
                StepView::Create { .. } | StepView::Delete { .. } => {
                    assert forall|j: int| 0 <= j < k implies !same_action_and_path(kept, j, k) by {
                        lemma_origin(steps, len, j);
                        lemma_origin_rises(steps, j, k);
                        let oj = origin(steps, len, j);
                        assert(!same_action_and_path(steps, oj, ok));
                    }
                },
                _ => {},
            }
        }
        assert(!is_malformed(kept[k]));
        assert(kept.take(n) == kept.take(n - 1).push(kept[k]));
    } else {
        assert(kept.take(0) == Seq::<StepView>::empty());
    }
}

/// Sanitizing a sanitized plan changes nothing and warns of nothing.
pub proof fn law_sanitize_is_idempotent(steps: Seq<StepView>)
    ensures
        kept_steps(kept_steps(steps)) == kept_steps(steps),
        warnings(kept_steps(steps)) == Seq::<Seq<char>>::empty(),
{
    let kept = kept_steps(steps);
    lemma_kept_of_kept(steps, kept.len() as int);
    assert(kept.take(kept.len() as int) == kept);
}

} // verus!
