use crate::text::{append_chars, chars_of, slice_of, string_of};
use crate::wire::Instruction;
use vstd::prelude::*;

verus! {

/// What stands between the system prompt and the developer notes.
pub open spec fn developer_heading() -> Seq<char> {
    "\n\nDeveloper notes:\n"@
}

/// The system text of an instruction: the system prompt, and the developer
/// notes under their heading where there are any.
pub open spec fn system_text(system: Seq<char>, developer: Option<Seq<char>>) -> Seq<char> {
    match developer {
        Some(d) => system + developer_heading() + d,
        None => system,
    }
}

/// The system text and the user text of an instruction.
pub fn split_instruction(ins: &Instruction) -> (r: (String, String))
    ensures
        r.0@ == system_text(ins.system@, crate::wire::opt_view(ins.developer)),
        r.1@ == ins.user@,
{
    let system = match &ins.developer {
        Some(d) => {
            let mut v = chars_of(ins.system.as_str());
            append_chars(&mut v, &chars_of("\n\nDeveloper notes:\n"));
            append_chars(&mut v, &chars_of(d.as_str()));
            string_of(&v)
        },
        None => ins.system.clone(),
    };
    (system, ins.user.clone())
}


/// The number of characters of `s` before its first opening brace.
pub open spec fn first_open(s: Seq<char>) -> int
    decreases s.len(),
{
    if s.len() == 0 || s[0] == '{' {
        0
    } else {
        1 + first_open(s.skip(1))
    }
}

/// Opening braces less closing braces among the characters from `from` up
/// to `to`.
pub open spec fn balance(s: Seq<char>, from: int, to: int) -> int
    decreases to - from,
{
    if to <= from {
        0
    } else if s[to - 1] == '{' {
        balance(s, from, to - 1) + 1
    } else if s[to - 1] == '}' {
        balance(s, from, to - 1) - 1
    } else {
        balance(s, from, to - 1)
    }
}

/// The brace at `end` closes the one at `start`: up to there more braces
/// were opened than closed, and there they are even.
pub open spec fn closes_at(s: Seq<char>, start: int, end: int) -> bool {
    &&& 0 <= start < end < s.len()
    &&& balance(s, start, end + 1) == 0
    &&& forall|k: int| start < k <= end ==> balance(s, start, k) > 0
}

/// The first object in a text: from its first opening brace to the brace
/// that closes it; none where no brace opens or the first is never closed.
pub open spec fn first_object(s: Seq<char>) -> Option<Seq<char>> {
    let start = first_open(s);
    if exists|end: int| closes_at(s, start, end) {
        let end = choose|end: int| closes_at(s, start, end);
        Some(s.subrange(start, end + 1))
    } else {
        None
    }
}

proof fn lemma_first_open(s: Seq<char>, k: int)
    requires
        0 <= k <= s.len(),
        forall|j: int| 0 <= j < k ==> s[j] != '{',
        k < s.len() ==> s[k] == '{',
    ensures
        first_open(s) == k,
    decreases k,
{
    if k > 0 {
        lemma_first_open(s.skip(1), k - 1);
    }
}

proof fn lemma_one_close(s: Seq<char>, start: int, a: int, b: int)
    requires
        closes_at(s, start, a),
        closes_at(s, start, b),
    ensures
        a == b,
{
    if a < b {
        assert(balance(s, start, a + 1) > 0);
    }
    if b < a {
        assert(balance(s, start, b + 1) > 0);
    }
}

/// The first object in a text, braces matched: what stands from the first
/// opening brace to the brace that closes it.
pub fn extract_first_json_object(s: &str) -> (r: Option<String>)
    ensures
        match first_object(s@) {
            Some(o) => r is Some && r->0@ == o,
            None => r is None,
        },
{
    let v = chars_of(s);
    let n = v.len();
    let mut i: usize = 0;
    while i < n && v[i] != '{'
        invariant
            i <= n == v.len(),
            forall|j: int| 0 <= j < i ==> v@[j] != '{',
        decreases n - i,
    {
        i += 1;
    }
    proof {
        lemma_first_open(v@, i as int);
    }
    if i >= n {
        assert(forall|end: int| !closes_at(v@, i as int, end));
        return None;
    }
    let start = i;
    let mut depth: usize = 1;
    i = start + 1;
    assert(balance(v@, start as int, start + 1) == 1) by {
        assert(balance(v@, start as int, start as int) == 0);
    }
    while i < n
        invariant
            start < i <= n == v.len(),
            v@ == s@,
            first_open(v@) == start,
            depth == balance(v@, start as int, i as int),
            depth <= i - start,
            forall|k: int| start < k <= i ==> balance(v@, start as int, k) > 0,
        decreases n - i,
    {
        let c = v[i];
        if c == '{' {
            depth += 1;
        } else if c == '}' {
            depth -= 1;
            if depth == 0 {
                proof {
                    assert(closes_at(v@, start as int, i as int));
                    let end = choose|end: int| closes_at(v@, start as int, end);
                    lemma_one_close(v@, start as int, i as int, end);
                }
                return Some(string_of(&slice_of(&v, start, i + 1)));
            }
        }
        i += 1;
    }
    assert(forall|end: int| !closes_at(v@, start as int, end));
    None
}

} // verus!
