//! General laws of the extraction automaton, proved over the spec model.

use vstd::prelude::*;

use crate::model::begin_of;
use crate::model::checker_step;
use crate::model::full_scan_results;
use crate::model::full_scan_states;
use crate::model::run_checker;
use crate::model::scan_results;
use crate::model::scan_states;
use crate::model::CheckerModel;
use crate::model::SemanticPosition;

verus! {

/// Determinism: scanning is a mathematical function of the scanner states
/// and the text — equal engines fed equal complete text yield equal states
/// and the same ordered result sequence.
pub proof fn lemma_determinism(
    ms1: Seq<CheckerModel>,
    ms2: Seq<CheckerModel>,
    s1: Seq<char>,
    s2: Seq<char>,
)
    requires
        ms1 == ms2,
        s1 == s2,
    ensures
        full_scan_results(ms1, s1) == full_scan_results(ms2, s2),
        full_scan_states(ms1, s1) == full_scan_states(ms2, s2),
{
}

proof fn lemma_scan_split_states(ms: Seq<CheckerModel>, s: Seq<char>, a: int, b: int, c: int)
    requires
        a <= b <= c,
    ensures
        scan_states(ms, s, a, c) == scan_states(scan_states(ms, s, a, b), s, b, c),
    decreases c - b,
{
    if c > b {
        lemma_scan_split_states(ms, s, a, b, c - 1);
    }
}

proof fn lemma_scan_split_results(ms: Seq<CheckerModel>, s: Seq<char>, a: int, b: int, c: int)
    requires
        a <= b <= c,
    ensures
        scan_results(ms, s, a, c) == scan_results(ms, s, a, b) + scan_results(
            scan_states(ms, s, a, b),
            s,
            b,
            c,
        ),
    decreases c - b,
{
    if c == b {
        assert(scan_results(ms, s, a, b) + scan_results(scan_states(ms, s, a, b), s, b, c)
            =~= scan_results(ms, s, a, b));
    } else {
        lemma_scan_split_results(ms, s, a, b, c - 1);
        lemma_scan_split_states(ms, s, a, b, c - 1);
        assert(scan_results(ms, s, a, c) =~= scan_results(ms, s, a, b) + scan_results(
            scan_states(ms, s, a, b),
            s,
            b,
            c,
        ));
    }
}

/// Chunk-invariance: cutting the text at any position and carrying the
/// scanner states across the boundary changes nothing — the states after
/// the whole text equal the states of the second piece scanned from the
/// carried states, and the results are the first piece's followed by the
/// second piece's, positions taken in the one running text.
pub proof fn lemma_chunk_invariance(ms: Seq<CheckerModel>, s: Seq<char>, k: int)
    requires
        0 <= k <= s.len(),
    ensures
        scan_states(ms, s, 0, s.len() as int) == scan_states(
            scan_states(ms, s, 0, k),
            s,
            k,
            s.len() as int,
        ),
        scan_results(ms, s, 0, s.len() as int) == scan_results(ms, s, 0, k) + scan_results(
            scan_states(ms, s, 0, k),
            s,
            k,
            s.len() as int,
        ),
{
    lemma_scan_split_states(ms, s, 0, k, s.len() as int);
    lemma_scan_split_results(ms, s, 0, k, s.len() as int);
}

proof fn lemma_scan_states_shift(
    ms: Seq<CheckerModel>,
    s: Seq<char>,
    a: int,
    b: int,
    t: Seq<char>,
    ta: int,
)
    requires
        a <= b,
        forall|i: int| 0 <= i < b - a ==> #[trigger] s[a + i] == t[ta + i],
    ensures
        scan_states(ms, s, a, b) == scan_states(ms, t, ta, ta + (b - a)),
    decreases b - a,
{
    if b > a {
        lemma_scan_states_shift(ms, s, a, b - 1, t, ta);
        assert(s[a + (b - 1 - a)] == t[ta + (b - 1 - a)]);
    }
}

/// Chunk-invariance for the scanner states of two separate chunks: scanning
/// the concatenation leaves the automaton exactly where scanning the first
/// chunk and then the second from the carried states does.  (A result's
/// text and offsets are cut from the chunk it completes in, so the result
/// law `lemma_chunk_invariance` is stated over one running text.)
pub proof fn lemma_chunk_states_concat(ms: Seq<CheckerModel>, a: Seq<char>, b: Seq<char>)
    ensures
        scan_states(ms, a + b, 0, (a + b).len() as int) == scan_states(
            scan_states(ms, a, 0, a.len() as int),
            b,
            0,
            b.len() as int,
        ),
{
    let s = a + b;
    let alen = a.len() as int;
    let slen = s.len() as int;
    lemma_scan_split_states(ms, s, 0, alen, slen);
    lemma_scan_states_shift(ms, s, 0, alen, a, 0);
    lemma_scan_states_shift(scan_states(ms, a, 0, alen), s, alen, slen, b, 0);
}

proof fn lemma_scan_states_len(ms: Seq<CheckerModel>, s: Seq<char>, from: int, to: int)
    requires
        from <= to,
    ensures
        scan_states(ms, s, from, to).len() == ms.len(),
    decreases to - from,
{
    if to > from {
        lemma_scan_states_len(ms, s, from, to - 1);
    }
}

/// Scanner independence: the engine drives all scanners in lockstep, but
/// they never interact — each scanner's state after a scan is what running
/// it alone over the same characters yields.
pub proof fn lemma_scanner_independence(ms: Seq<CheckerModel>, s: Seq<char>, from: int, to: int, k: int)
    requires
        0 <= k < ms.len(),
        0 <= from <= to <= s.len(),
    ensures
        scan_states(ms, s, from, to)[k] == run_checker(ms[k], s.subrange(from, to)),
    decreases to - from,
{
    if to == from {
        assert(s.subrange(from, from) =~= Seq::<char>::empty());
    } else {
        lemma_scanner_independence(ms, s, from, to - 1, k);
        lemma_scan_states_len(ms, s, from, to - 1);
        assert(s.subrange(from, to).drop_last() =~= s.subrange(from, to - 1));
        assert(s.subrange(from, to).last() == s[to - 1]);
        assert(scan_states(ms, s, from, to)[k] == checker_step(
            scan_states(ms, s, from, to - 1)[k],
            s[to - 1],
        ));
    }
}

/// Nesting balance: while more than one delimiter level is open, no
/// character completes the match — an inner end delimiter only closes its
/// own level, and an inner begin delimiter opens one more.
pub proof fn lemma_nesting_balance(m: CheckerModel, c: char)
    requires
        m.pos is In,
        !(m.range is Tag),
        m.closures >= 2,
    ensures
        !(checker_step(m, c).pos is Done),
        c == crate::model::end_of(m.range) ==> checker_step(m, c).closures == m.closures - 1,
        c == begin_of(m.range) ==> checker_step(m, c).closures == crate::model::sat_inc(
            m.closures,
        ),
{
}

/// Quote insensitivity: while a scanner stands inside a quoted stretch (or
/// just after an escaping backslash), no character changes the nesting
/// depth and none completes the match.
pub proof fn lemma_quote_depth_opaque(m: CheckerModel, c: char)
    requires
        m.pos is InSingleQuote || m.pos is InDoubleQuote || m.pos is InSingleQuoteEscaped
            || m.pos is InDoubleQuoteEscaped,
    ensures
        checker_step(m, c).closures == m.closures,
        !(checker_step(m, c).pos is Done),
{
}

/// Escape handling: a backslash inside a quoted stretch escapes exactly the
/// next character — whatever it is, the closing quote included — and the
/// scanner stays in the same quoted stretch with its depth untouched.
pub proof fn lemma_escape_handling(m: CheckerModel, c: char)
    requires
        m.pos is InSingleQuote || m.pos is InDoubleQuote,
    ensures
        checker_step(checker_step(m, '\\'), c).pos == m.pos,
        checker_step(checker_step(m, '\\'), c).closures == m.closures,
{
}

proof fn lemma_token_prefix(m: CheckerModel, j: int)
    requires
        1 <= m.ident.len() <= usize::MAX as nat,
        !(m.range is Tag),
        m.pos is Out,
        1 <= j <= m.ident.len(),
    ensures
        run_checker(m, m.ident.take(j)) == (CheckerModel {
            pos: SemanticPosition::Ident,
            length: j as nat,
            ..m
        }),
    decreases j,
{
    if j == 1 {
        assert(m.ident.take(1).drop_last() =~= Seq::<char>::empty());
        assert(m.ident.take(1).last() == m.ident[0]);
        assert(run_checker(m, Seq::<char>::empty()) == m);
    } else {
        lemma_token_prefix(m, j - 1);
        assert(m.ident.take(j).drop_last() =~= m.ident.take(j - 1));
        assert(m.ident.take(j).last() == m.ident[j - 1]);
    }
}

/// Non-match rejection: a fresh scanner that sees its bare token followed
/// by a character other than its begin delimiter never completes a match on
/// the way, and ends exactly as a fresh scanner does after considering that
/// one character — subsequent matching is not corrupted.
pub proof fn lemma_nonmatch_rejection(m: CheckerModel, c: char)
    requires
        1 <= m.ident.len(),
        m.ident.len() < usize::MAX as nat,
        !(m.range is Tag),
        m.pos is Out,
        m.length == 0,
        m.closures == 0,
        c != begin_of(m.range),
    ensures
        run_checker(m, m.ident.push(c)) == crate::model::out_step(m, c),
        forall|j: int|
            0 <= j <= m.ident.len() + 1 ==> !(#[trigger] run_checker(
                m,
                m.ident.push(c).take(j),
            ).pos is Done),
{
    let t = m.ident.push(c);
    let n = m.ident.len() as int;
    assert forall|j: int| 1 <= j <= n implies run_checker(m, t.take(j)) == (CheckerModel {
        pos: SemanticPosition::Ident,
        length: j as nat,
        ..m
    }) by {
        assert(t.take(j) =~= m.ident.take(j));
        lemma_token_prefix(m, j);
    }
    assert(t.take(n + 1) =~= t);
    assert(t.drop_last() =~= m.ident.take(n));
    assert(t.last() == c);
    let after_token = run_checker(m, t.drop_last());
    assert(after_token == (CheckerModel {
        pos: SemanticPosition::Ident,
        length: n as nat,
        ..m
    }));
    assert(run_checker(m, t) == checker_step(after_token, c));
    assert(checker_step(after_token, c) == crate::model::out_step(m, c));
    assert forall|j: int| 0 <= j <= n + 1 implies !(#[trigger] run_checker(
        m,
        t.take(j),
    ).pos is Done) by {
        if j == 0 {
            assert(t.take(0) =~= Seq::<char>::empty());
        } else if j == n + 1 {
            assert(t.take(j) =~= t);
        }
    }
}

} // verus!
