//! Verified text helpers: character access, the flow-map rewrite of an
//! extracted span, and decimal rendering of offsets.

use vstd::prelude::*;
use vstd::string::StrSliceExecFns;
use vstd::string::StringExecFns;

use crate::model::dec_digit;
use crate::model::dec_str;
use crate::model::replace_first;
use crate::model::sat_inc;
use crate::model::wrap_map;

verus! {

/// Increment that stops at the machine word instead of overflowing.
pub(crate) fn sat_inc_usize(n: usize) -> (r: usize)
    ensures
        r as nat == sat_inc(n as nat),
{
    if n < usize::MAX {
        n + 1
    } else {
        n
    }
}

/// The characters of a string, one slot each.
pub(crate) fn str_to_chars(s: &str) -> (v: Vec<char>)
    ensures
        v@ == s@,
{
    let n = s.unicode_len();
    let mut v: Vec<char> = Vec::new();
    let mut i: usize = 0;
    while i < n
        invariant
            i <= n,
            n == s@.len(),
            v@ == s@.take(i as int),
        decreases n - i,
    {
        v.push(s.get_char(i));
        i = i + 1;
        assert(v@ =~= s@.take(i as int));
    }
    assert(v@ =~= s@);
    v
}

/// The position of the first occurrence of `b` in `s`, if any.
pub(crate) fn find_char(s: &str, b: char) -> (r: Option<usize>)
    ensures
        match r {
            Some(j) => j < s@.len() && s@[j as int] == b && forall|k: int|
                0 <= k < j ==> s@[k] != b,
            None => forall|k: int| 0 <= k < s@.len() ==> s@[k] != b,
        },
{
    let n = s.unicode_len();
    let mut i: usize = 0;
    while i < n
        invariant
            i <= n,
            n == s@.len(),
            forall|k: int| 0 <= k < i ==> s@[k] != b,
        decreases n - i,
    {
        if s.get_char(i) == b {
            return Some(i);
        }
        i = i + 1;
    }
    None
}

proof fn lemma_replace_first_absent(s: Seq<char>, b: char)
    requires
        forall|k: int| 0 <= k < s.len() ==> s[k] != b,
    ensures
        replace_first(s, b) == s,
    decreases s.len(),
{
    if s.len() == 0 {
        assert(replace_first(s, b) =~= s);
    } else {
        lemma_replace_first_absent(s.skip(1), b);
        assert(replace_first(s, b) =~= s);
    }
}

proof fn lemma_replace_first_found(s: Seq<char>, b: char, j: int)
    requires
        0 <= j < s.len(),
        s[j] == b,
        forall|k: int| 0 <= k < j ==> s[k] != b,
    ensures
        replace_first(s, b) == s.take(j) + seq![':', ' '] + s.skip(j + 1),
    decreases j,
{
    if j == 0 {
        assert(replace_first(s, b) =~= s.take(0) + seq![':', ' '] + s.skip(1));
    } else {
        lemma_replace_first_found(s.skip(1), b, j - 1);
        assert(s.skip(1).take(j - 1) =~= s.subrange(1, j));
        assert(s.skip(1).skip(j) =~= s.skip(j + 1));
        assert(seq![s[0]] + s.subrange(1, j) =~= s.take(j));
        assert(replace_first(s, b) =~= s.take(j) + seq![':', ' '] + s.skip(j + 1));
    }
}

/// The extracted span rewritten as flow-map text: wrapped in braces, the
/// first begin delimiter replaced by `: `.
pub(crate) fn wrap_mapped(raw: &str, b: char) -> (t: String)
    ensures
        t@ == wrap_map(raw@, b),
{
    proof {
        reveal_strlit("{");
        reveal_strlit("}");
        reveal_strlit(": ");
    }
    let mut t = String::new();
    t.append("{");
    let n = raw.unicode_len();
    match find_char(raw, b) {
        Some(j) => {
            t.append(raw.substring_char(0, j));
            t.append(": ");
            t.append(raw.substring_char(j + 1, n));
            proof {
                lemma_replace_first_found(raw@, b, j as int);
                assert(raw@.subrange(0, j as int) == raw@.take(j as int));
                assert(raw@.subrange(j + 1, n as int) == raw@.skip(j + 1));
            }
        },
        None => {
            t.append(raw);
            proof {
                lemma_replace_first_absent(raw@, b);
            }
        },
    }
    t.append("}");
    proof {
        assert(t@ =~= wrap_map(raw@, b));
    }
    t
}

/// The decimal rendering of `n` appended to `out`.
pub(crate) fn push_decimal(out: &mut String, n: usize)
    ensures
        final(out)@ == old(out)@ + dec_str(n as nat),
    decreases n,
{
    proof {
        reveal_strlit("0");
        reveal_strlit("1");
        reveal_strlit("2");
        reveal_strlit("3");
        reveal_strlit("4");
        reveal_strlit("5");
        reveal_strlit("6");
        reveal_strlit("7");
        reveal_strlit("8");
        reveal_strlit("9");
    }
    if n >= 10 {
        push_decimal(out, n / 10);
    }
    let d = n % 10;
    if d == 0 {
        out.append("0");
    } else if d == 1 {
        out.append("1");
    } else if d == 2 {
        out.append("2");
    } else if d == 3 {
        out.append("3");
    } else if d == 4 {
        out.append("4");
    } else if d == 5 {
        out.append("5");
    } else if d == 6 {
        out.append("6");
    } else if d == 7 {
        out.append("7");
    } else if d == 8 {
        out.append("8");
    } else {
        out.append("9");
    }
    proof {
        assert(out@ =~= old(out)@ + dec_str(n as nat));
    }
}

} // verus!
