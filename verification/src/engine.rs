//! The executable extraction engine: one scanner per configured indicator,
//! driven in lockstep over every input chunk, draining a result whenever a
//! scanner completes a match.
//!
//! Every public operation is specified against the spec automaton in
//! `model`: the scanners' joint state after a chunk is exactly
//! `scan_states`, and the drained results are exactly `scan_results` (plus
//! the end-of-chunk flush for the checked pass).

use vstd::prelude::*;
use vstd::string::StrSliceExecFns;
use vstd::string::StringExecFns;

use crate::model::any_open;
use crate::model::begin_of;
use crate::model::checker_step;
use crate::model::emits;
use crate::model::end_of;
use crate::model::end_step;
use crate::model::extracted_at;
use crate::model::flush_results;
use crate::model::flush_results_upto;
use crate::model::flush_states;
use crate::model::full_scan_results;
use crate::model::full_scan_states;
use crate::model::ident_step;
use crate::model::ident_tag_step;
use crate::model::in_step;
use crate::model::init_checkers;
use crate::model::init_model;
use crate::model::out_step;
use crate::model::print_view;
use crate::model::reset_model;
use crate::model::reset_open_models;
use crate::model::results_at_upto;
use crate::model::scan_results;
use crate::model::scan_states;
use crate::model::step_all;
use crate::model::tick;
use crate::model::CheckerModel;
use crate::model::IdentRange;
use crate::model::ResultModel;
use crate::model::SemanticPosition;
use crate::text::push_decimal;
use crate::text::sat_inc_usize;
use crate::text::str_to_chars;
use crate::text::wrap_mapped;

verus! {

/// An extracted, normalized fragment together with its chunk-relative
/// offsets: `start` is the position of the indicator's first character,
/// `end` the position of the closing delimiter.
pub struct Result {
    text: String,
    start: usize,
    end: usize,
}

impl View for Result {
    type V = ResultModel;

    closed spec fn view(&self) -> ResultModel {
        ResultModel { text: self.text@, start: self.start as nat, end: self.end as nat }
    }
}

/// The abstract values of a buffer of results.
pub open spec fn results_view(v: Seq<Result>) -> Seq<ResultModel> {
    v.map_values(|r: Result| r@)
}

/// The character sequences of a list of token strings.
pub open spec fn strings_view(v: Seq<String>) -> Seq<Seq<char>> {
    v.map_values(|s: String| s@)
}

impl Result {
    /// The flow-map-shaped text of the fragment.
    pub fn get_text(&self) -> (t: &String)
        ensures
            t@ == self@.text,
    {
        &self.text
    }

    /// The fragment's text annotated with its source offsets.
    pub fn get_print(&self) -> (t: String)
        ensures
            t@ == print_view(self@),
    {
        proof {
            reveal_strlit(" at ");
            reveal_strlit(" -> ");
        }
        let mut result = self.text.clone();
        result.append(" at ");
        push_decimal(&mut result, self.start);
        result.append(" -> ");
        push_decimal(&mut result, self.end);
        proof {
            assert(result@ =~= print_view(self@));
        }
        result
    }

    /// The offset of the match's first character.
    pub fn get_start(&self) -> (r: usize)
        ensures
            r as nat == self@.start,
    {
        self.start
    }

    /// The offset of the match's closing delimiter.
    pub fn get_end(&self) -> (r: usize)
        ensures
            r as nat == self@.end,
    {
        self.end
    }

    /// A result from its parts.
    pub fn new(text: String, start: usize, end: usize) -> (r: Result)
        ensures
            r@ == (ResultModel { text: text@, start: start as nat, end: end as nat }),
    {
        Result { text, start, end }
    }
}

/// One scanner: the per-indicator automaton state, together with the cached
/// first character of its token and the delimiter pair of its kind.
pub(crate) struct IdentChecker {
    range: IdentRange,
    ident: Vec<char>,
    first_char: char,
    begin_char: char,
    end_char: char,
    semantic_position: SemanticPosition,
    length: usize,
    closures: usize,
}

impl View for IdentChecker {
    type V = CheckerModel;

    closed spec fn view(&self) -> CheckerModel {
        CheckerModel {
            range: self.range,
            ident: self.ident@,
            pos: self.semantic_position,
            length: self.length as nat,
            closures: self.closures as nat,
        }
    }
}

impl IdentChecker {
    /// The token is non-empty, the cached characters agree with the token
    /// and the delimiter kind, and the length counter is live whenever a
    /// token match is in progress.
    pub(crate) closed spec fn wf(&self) -> bool {
        &&& self.ident@.len() >= 1
        &&& self.first_char == self.ident@[0]
        &&& self.begin_char == begin_of(self.range)
        &&& self.end_char == end_of(self.range)
        &&& (self@.pos is Ident ==> 1 <= self@.length)
    }
}

/// The abstract states of a list of scanners.
pub(crate) open spec fn checkers_view(v: Seq<IdentChecker>) -> Seq<CheckerModel> {
    v.map_values(|c: IdentChecker| c@)
}

/// Out of a match: the token's first character starts one.
fn check_out(ident_check: &mut IdentChecker, c: char)
    requires
        old(ident_check).wf(),
    ensures
        final(ident_check).wf(),
        final(ident_check)@ == out_step(old(ident_check)@, c),
{
    if c == ident_check.first_char {
        ident_check.length = 1;
        ident_check.semantic_position = SemanticPosition::Ident;
    }
}

/// Back to the initial state.
fn reset(ident_check: &mut IdentChecker)
    requires
        old(ident_check).wf(),
    ensures
        final(ident_check).wf(),
        final(ident_check)@ == reset_model(old(ident_check)@),
{
    ident_check.length = 0;
    ident_check.closures = 0;
    ident_check.semantic_position = SemanticPosition::Out;
}

/// A failed partial match resets the scanner, and the very character that
/// broke the match is reconsidered as a potential new start.
fn clean_up(ident_check: &mut IdentChecker, c: char)
    requires
        old(ident_check).wf(),
    ensures
        final(ident_check).wf(),
        final(ident_check)@ == out_step(reset_model(old(ident_check)@), c),
{
    reset(ident_check);
    check_out(ident_check, c);
}

/// Matching the token of a non-tag scanner.
fn check_ident(ident_check: &mut IdentChecker, c: char)
    requires
        old(ident_check).wf(),
        old(ident_check)@.pos is Ident,
    ensures
        final(ident_check).wf(),
        final(ident_check)@ == ident_step(old(ident_check)@, c),
{
    let check_size = ident_check.ident.len() < ident_check.length;
    if check_size {
        if ident_check.begin_char == c {
            ident_check.semantic_position = SemanticPosition::In;
            ident_check.closures = 1;
        } else {
            clean_up(ident_check, c);
        }
    } else if c != ident_check.ident[ident_check.length - 1] {
        clean_up(ident_check, c);
    }
}

/// Matching the token of a tag scanner.
fn check_ident_tag(ident_check: &mut IdentChecker, c: char)
    requires
        old(ident_check).wf(),
        old(ident_check)@.pos is Ident,
    ensures
        final(ident_check).wf(),
        final(ident_check)@ == ident_tag_step(old(ident_check)@, c),
{
    if c == ident_check.begin_char {
        ident_check.semantic_position = SemanticPosition::In;
    } else if c == ' ' || c == '\n' || c == ',' || c == '.' {
        if ident_check.length > 2 {
            ident_check.semantic_position = SemanticPosition::Done;
        } else {
            reset(ident_check);
        }
    } else if c == ident_check.first_char {
        ident_check.length = 1;
        ident_check.semantic_position = SemanticPosition::Ident;
    }
}

/// The match completes when the depth returns to zero.
fn check_end(ident_check: &mut IdentChecker)
    requires
        old(ident_check).wf(),
    ensures
        final(ident_check).wf(),
        final(ident_check)@ == end_step(old(ident_check)@),
{
    if ident_check.closures == 0 {
        ident_check.semantic_position = SemanticPosition::Done;
    }
}

/// Inside the delimited region: track nesting and enter quoted stretches.
fn check_in(ident_check: &mut IdentChecker, c: char)
    requires
        old(ident_check).wf(),
    ensures
        final(ident_check).wf(),
        final(ident_check)@ == in_step(old(ident_check)@, c),
{
    let begin = ident_check.begin_char;
    let end = ident_check.end_char;
    if c == end {
        if ident_check.closures >= 1 {
            ident_check.closures = ident_check.closures - 1;
        }
        check_end(ident_check);
    } else if c == begin {
        ident_check.closures = sat_inc_usize(ident_check.closures);
    } else if c == '\'' {
        ident_check.semantic_position = SemanticPosition::InSingleQuote;
    } else if c == '"' {
        ident_check.semantic_position = SemanticPosition::InDoubleQuote;
    }
}

/// Inside a single-quoted stretch.
fn check_single_quote(ident_check: &mut IdentChecker, c: char)
    requires
        old(ident_check).wf(),
    ensures
        final(ident_check).wf(),
        final(ident_check)@ == crate::model::single_quote_step(old(ident_check)@, c),
{
    if c == '\'' {
        ident_check.semantic_position = SemanticPosition::In;
    } else if c == '\\' {
        ident_check.semantic_position = SemanticPosition::InSingleQuoteEscaped;
    }
}

/// Inside a double-quoted stretch.
fn check_double_quote(ident_check: &mut IdentChecker, c: char)
    requires
        old(ident_check).wf(),
    ensures
        final(ident_check).wf(),
        final(ident_check)@ == crate::model::double_quote_step(old(ident_check)@, c),
{
    if c == '"' {
        ident_check.semantic_position = SemanticPosition::In;
    } else if c == '\\' {
        ident_check.semantic_position = SemanticPosition::InDoubleQuoteEscaped;
    }
}

/// Drain the completed match of a scanner standing at position `i` of chunk
/// `s` into the result buffer.  The scanner's length counter has already
/// advanced for the current character; the span is computed backward from
/// `i` and clamped to the chunk.
fn add_result(results: &mut Vec<Result>, ident_check: &IdentChecker, s: &str, i: usize)
    requires
        ident_check.wf(),
        i <= s@.len(),
    ensures
        results_view(final(results)@) == results_view(old(results)@).push(
            extracted_at(ident_check@, s@, i as nat),
        ),
{
    let end = if i >= 1 {
        i - 1
    } else {
        0
    };
    let content_len = if ident_check.length >= 2 {
        ident_check.length - 2
    } else {
        0
    };
    let start = if end >= content_len {
        end - content_len
    } else {
        0
    };
    let slen = s.unicode_len();
    let stop = if content_len <= slen - start {
        start + content_len
    } else {
        slen
    };
    let raw = s.substring_char(start, stop);
    let text = wrap_mapped(raw, ident_check.begin_char);
    results.push(Result { text, start, end });
    proof {
        assert(results_view(results@) =~= results_view(old(results)@).push(
            extracted_at(ident_check@, s@, i as nat),
        ));
    }
}

/// Advance one scanner over one character: the length counter ticks, the
/// state dispatches, and a match completed on the previous character is
/// drained before the scanner restarts on the current one.
fn advance_checker(
    ident_check: &mut IdentChecker,
    results: &mut Vec<Result>,
    s: &str,
    i: usize,
    c: char,
)
    requires
        old(ident_check).wf(),
        i < s@.len(),
        c == s@[i as int],
    ensures
        final(ident_check).wf(),
        final(ident_check)@ == checker_step(old(ident_check)@, c),
        results_view(final(results)@) == if emits(old(ident_check)@) {
            results_view(old(results)@).push(extracted_at(tick(old(ident_check)@), s@, i as nat))
        } else {
            results_view(old(results)@)
        },
{
    ident_check.length = sat_inc_usize(ident_check.length);
    match ident_check.semantic_position {
        SemanticPosition::Out => {
            check_out(ident_check, c);
        },
        SemanticPosition::Ident => {
            if ident_check.range == IdentRange::Tag {
                check_ident_tag(ident_check, c);
            } else {
                check_ident(ident_check, c);
            }
        },
        SemanticPosition::In => {
            if c == ident_check.end_char && ident_check.range == IdentRange::Tag {
                ident_check.semantic_position = SemanticPosition::Done;
            } else {
                check_in(ident_check, c);
            }
        },
        SemanticPosition::InSingleQuote => {
            check_single_quote(ident_check, c);
        },
        SemanticPosition::InDoubleQuote => {
            check_double_quote(ident_check, c);
        },
        SemanticPosition::InSingleQuoteEscaped => {
            ident_check.semantic_position = SemanticPosition::InSingleQuote;
        },
        SemanticPosition::InDoubleQuoteEscaped => {
            ident_check.semantic_position = SemanticPosition::InDoubleQuote;
        },
        SemanticPosition::Done => {
            add_result(results, ident_check, s, i);
            reset(ident_check);
            check_out(ident_check, c);
        },
    }
}

/// Drive every scanner over every character of `s`, draining completed
/// matches into the returned buffer.  Scanners still mid-match stay alive:
/// there is no reset at the chunk boundary.
fn cut_yaml_unchecked(ident_checks: &mut Vec<IdentChecker>, s: &str) -> (results: Vec<Result>)
    requires
        forall|k: int| 0 <= k < old(ident_checks)@.len() ==> old(ident_checks)@[k].wf(),
    ensures
        forall|k: int| 0 <= k < final(ident_checks)@.len() ==> final(ident_checks)@[k].wf(),
        checkers_view(final(ident_checks)@) == scan_states(
            checkers_view(old(ident_checks)@),
            s@,
            0,
            s@.len() as int,
        ),
        results_view(results@) == scan_results(
            checkers_view(old(ident_checks)@),
            s@,
            0,
            s@.len() as int,
        ),
{
    let ghost init_ms = checkers_view(ident_checks@);
    let mut results: Vec<Result> = Vec::new();
    let n = s.unicode_len();
    let mut i: usize = 0;
    while i < n
        invariant
            i <= n,
            n as nat == s@.len(),
            forall|k: int| 0 <= k < ident_checks@.len() ==> ident_checks@[k].wf(),
            checkers_view(ident_checks@) == scan_states(init_ms, s@, 0, i as int),
            results_view(results@) == scan_results(init_ms, s@, 0, i as int),
        decreases n - i,
    {
        let c = s.get_char(i);
        let ghost pre = checkers_view(ident_checks@);
        let mut j: usize = 0;
        while j < ident_checks.len()
            invariant
                j <= ident_checks@.len(),
                ident_checks@.len() == pre.len(),
                i < n,
                n as nat == s@.len(),
                c == s@[i as int],
                forall|k: int| 0 <= k < ident_checks@.len() ==> ident_checks@[k].wf(),
                forall|k: int| j <= k < pre.len() ==> ident_checks@[k]@ == pre[k],
                forall|k: int| 0 <= k < j ==> ident_checks@[k]@ == checker_step(pre[k], c),
                results_view(results@) == scan_results(init_ms, s@, 0, i as int)
                    + results_at_upto(pre, s@, i as nat, j as int),
            decreases ident_checks@.len() - j,
        {
            let ck = &mut ident_checks[j];
            advance_checker(ck, &mut results, s, i, c);
            j = j + 1;
        }
        proof {
            assert(checkers_view(ident_checks@) =~= step_all(pre, c));
            assert(results_view(results@) =~= scan_results(init_ms, s@, 0, (i + 1) as int));
        }
        i = i + 1;
    }
    results
}

/// The end-of-chunk flush of the checked pass: every length counter ticks
/// once, and a scanner holding a completed match — or, for the tag kind, any
/// match in progress at all — is drained at the chunk's end.
fn check_ident_checks(ident_checks: &mut Vec<IdentChecker>, s: &str, results: &mut Vec<Result>)
    requires
        forall|k: int| 0 <= k < old(ident_checks)@.len() ==> old(ident_checks)@[k].wf(),
    ensures
        forall|k: int| 0 <= k < final(ident_checks)@.len() ==> final(ident_checks)@[k].wf(),
        checkers_view(final(ident_checks)@) == flush_states(checkers_view(old(ident_checks)@)),
        results_view(final(results)@) == results_view(old(results)@) + flush_results(
            checkers_view(old(ident_checks)@),
            s@,
        ),
{
    let ghost pre = checkers_view(ident_checks@);
    let ghost res0 = results_view(results@);
    let slen = s.unicode_len();
    let mut j: usize = 0;
    while j < ident_checks.len()
        invariant
            j <= ident_checks@.len(),
            ident_checks@.len() == pre.len(),
            slen as nat == s@.len(),
            forall|k: int| 0 <= k < ident_checks@.len() ==> ident_checks@[k].wf(),
            forall|k: int| j <= k < pre.len() ==> ident_checks@[k]@ == pre[k],
            forall|k: int| 0 <= k < j ==> ident_checks@[k]@ == tick(pre[k]),
            results_view(results@) == res0 + flush_results_upto(pre, s@, j as int),
        decreases ident_checks@.len() - j,
    {
        let ck = &mut ident_checks[j];
        ck.length = sat_inc_usize(ck.length);
        if ck.semantic_position == SemanticPosition::Done || (ck.range == IdentRange::Tag
            && ck.semantic_position != SemanticPosition::Out) {
            add_result(results, ck, s, slen);
        }
        j = j + 1;
        proof {
            assert(results_view(results@) =~= res0 + flush_results_upto(pre, s@, j as int));
        }
    }
    proof {
        assert(checkers_view(ident_checks@) =~= flush_states(pre));
    }
}

/// The checked pass over one chunk: the plain scan followed by the flush.
fn cut_yaml(ident_checks: &mut Vec<IdentChecker>, s: &str) -> (results: Vec<Result>)
    requires
        forall|k: int| 0 <= k < old(ident_checks)@.len() ==> old(ident_checks)@[k].wf(),
    ensures
        forall|k: int| 0 <= k < final(ident_checks)@.len() ==> final(ident_checks)@[k].wf(),
        checkers_view(final(ident_checks)@) == full_scan_states(
            checkers_view(old(ident_checks)@),
            s@,
        ),
        results_view(results@) == full_scan_results(checkers_view(old(ident_checks)@), s@),
{
    let mut results = cut_yaml_unchecked(ident_checks, s);
    check_ident_checks(ident_checks, s, &mut results);
    results
}

/// One fresh scanner for the given token.
fn new_checker(id: &String, range: IdentRange, begin_char: char, end_char: char) -> (r:
    IdentChecker)
    requires
        id@.len() >= 1,
        begin_char == begin_of(range),
        end_char == end_of(range),
    ensures
        r.wf(),
        r@ == init_model(id@, range),
{
    let chars = str_to_chars(id.as_str());
    let fc = chars[0];
    IdentChecker {
        range,
        ident: chars,
        first_char: fc,
        begin_char,
        end_char,
        semantic_position: SemanticPosition::Out,
        length: 0,
        closures: 0,
    }
}

/// One scanner per token, all sharing the delimiter kind, all starting out
/// of any match.
fn create_ident_checks(ident_strings: &Vec<String>, range: IdentRange) -> (r: Vec<IdentChecker>)
    requires
        forall|k: int| 0 <= k < ident_strings@.len() ==> ident_strings@[k]@.len() >= 1,
    ensures
        forall|k: int| 0 <= k < r@.len() ==> r@[k].wf(),
        checkers_view(r@) == init_checkers(strings_view(ident_strings@), range),
{
    let (begin_char, end_char) = match range {
        IdentRange::Closures => ('{', '}'),
        IdentRange::Brackets => ('[', ']'),
        IdentRange::Crickets => ('<', '>'),
        IdentRange::Rounds => ('(', ')'),
        IdentRange::Tag => (':', '\n'),
    };
    let mut ident_checks: Vec<IdentChecker> = Vec::new();
    let mut k: usize = 0;
    while k < ident_strings.len()
        invariant
            k <= ident_strings@.len(),
            begin_char == begin_of(range),
            end_char == end_of(range),
            forall|a: int| 0 <= a < ident_strings@.len() ==> ident_strings@[a]@.len() >= 1,
            ident_checks@.len() == k,
            forall|a: int| 0 <= a < k ==> ident_checks@[a].wf(),
            forall|a: int|
                0 <= a < k ==> ident_checks@[a]@ == init_model(ident_strings@[a]@, range),
        decreases ident_strings@.len() - k,
    {
        let id = &ident_strings[k];
        proof {
            assert(ident_strings@[k as int]@.len() >= 1);
        }
        let checker = new_checker(id, range, begin_char, end_char);
        ident_checks.push(checker);
        proof {
            assert(ident_checks@.len() == k + 1);
            assert(ident_checks@[k as int].wf());
            assert(ident_checks@[k as int]@ == init_model(ident_strings@[k as int]@, range));
        }
        k = k + 1;
    }
    proof {
        assert(checkers_view(ident_checks@) =~= init_checkers(strings_view(ident_strings@), range));
    }
    ident_checks
}

/// Extract every bracket-kind fragment that one of the given tokens
/// introduces in `s`, in source order, including the end-of-text flush.
pub fn cut_yaml_ident_strings(ident_strings: Vec<String>, s: &str) -> (results: Vec<Result>)
    requires
        forall|k: int| 0 <= k < ident_strings@.len() ==> ident_strings@[k]@.len() >= 1,
    ensures
        results_view(results@) == full_scan_results(
            init_checkers(strings_view(ident_strings@), IdentRange::Brackets),
            s@,
        ),
{
    let mut ident_checks = create_ident_checks(&ident_strings, IdentRange::Brackets);
    cut_yaml(&mut ident_checks, s)
}

/// An immutable list of indicator tokens sharing one delimiter kind.
pub struct Indicators {
    ident_strings: Vec<String>,
    range: IdentRange,
}

impl Indicators {
    /// The configured tokens.
    pub closed spec fn idents(&self) -> Seq<Seq<char>> {
        strings_view(self.ident_strings@)
    }

    /// The configured delimiter kind.
    pub closed spec fn range_spec(&self) -> IdentRange {
        self.range
    }

    /// A configuration from its parts.
    pub fn new(ident_strings: Vec<String>, range: IdentRange) -> (r: Indicators)
        ensures
            r.idents() == strings_view(ident_strings@),
            r.range_spec() == range,
    {
        Indicators { ident_strings, range }
    }
}

/// The scanners an engine is built with: one per token, list by list.
pub open spec fn init_from_lists(lists: Seq<Indicators>) -> Seq<CheckerModel>
    decreases lists.len(),
{
    if lists.len() == 0 {
        Seq::empty()
    } else {
        init_from_lists(lists.drop_last()) + init_checkers(
            lists.last().idents(),
            lists.last().range_spec(),
        )
    }
}

/// Every token of every list is non-empty.
pub open spec fn lists_wf(lists: Seq<Indicators>) -> bool {
    forall|a: int, b: int|
        0 <= a < lists.len() && 0 <= b < lists[a].idents().len() ==> #[trigger] lists[a].idents()[b].len()
            >= 1
}

/// The incremental extraction engine: a set of scanners and the buffer of
/// results drained so far.
pub struct YogurtYaml {
    ident_checks: Vec<IdentChecker>,
    results: Vec<Result>,
}

impl YogurtYaml {
    /// The abstract states of the engine's scanners.
    pub closed spec fn checkers(&self) -> Seq<CheckerModel> {
        checkers_view(self.ident_checks@)
    }

    /// The abstract values of the buffered results.
    pub closed spec fn extracted(&self) -> Seq<ResultModel> {
        results_view(self.results@)
    }

    /// Every scanner is well formed.
    pub closed spec fn wf(&self) -> bool {
        forall|k: int| 0 <= k < self.ident_checks@.len() ==> self.ident_checks@[k].wf()
    }

    /// An engine from a list of indicator configurations, with an empty
    /// result buffer.  An empty token is invalid configuration and is ruled
    /// out by the precondition.
    pub fn new(indicator_lists: &Vec<Indicators>) -> (r: YogurtYaml)
        requires
            lists_wf(indicator_lists@),
        ensures
            r.wf(),
            r.checkers() == init_from_lists(indicator_lists@),
            r.extracted() == Seq::<ResultModel>::empty(),
    {
        let mut ident_checks: Vec<IdentChecker> = Vec::new();
        let mut li: usize = 0;
        while li < indicator_lists.len()
            invariant
                li <= indicator_lists@.len(),
                lists_wf(indicator_lists@),
                forall|k: int| 0 <= k < ident_checks@.len() ==> ident_checks@[k].wf(),
                checkers_view(ident_checks@) == init_from_lists(indicator_lists@.take(li as int)),
            decreases indicator_lists@.len() - li,
        {
            let list = &indicator_lists[li];
            proof {
                assert forall|b: int|
                    0 <= b < list.ident_strings@.len() implies #[trigger] list.ident_strings@[b]@.len()
                    >= 1 by {
                    assert(indicator_lists@[li as int].idents()[b] == list.ident_strings@[b]@);
                    assert(indicator_lists@[li as int].idents()[b].len() >= 1);
                }
            }
            let mut more = create_ident_checks(&list.ident_strings, list.range);
            ident_checks.append(&mut more);
            proof {
                let lists = indicator_lists@;
                assert(lists.take(li + 1).drop_last() =~= lists.take(li as int));
                assert(lists.take(li + 1).last() == lists[li as int]);
                assert(checkers_view(ident_checks@) =~= init_from_lists(lists.take(li + 1)));
            }
            li = li + 1;
        }
        proof {
            assert(indicator_lists@.take(indicator_lists@.len() as int) =~= indicator_lists@);
        }
        YogurtYaml { ident_checks, results: Vec::new() }
    }

    /// An engine for bracket-kind indicators given directly as strings.
    /// An empty token is invalid configuration and is ruled out by the
    /// precondition.
    pub fn new_from_str(indicators: Vec<String>) -> (r: YogurtYaml)
        requires
            forall|k: int| 0 <= k < indicators@.len() ==> indicators@[k]@.len() >= 1,
        ensures
            r.wf(),
            r.checkers() == init_checkers(strings_view(indicators@), IdentRange::Brackets),
            r.extracted() == Seq::<ResultModel>::empty(),
    {
        let ident_checks = create_ident_checks(&indicators, IdentRange::Brackets);
        YogurtYaml { ident_checks, results: Vec::new() }
    }

    /// Extract from the next chunk: every scanner advances over every
    /// character, completed matches append to the result buffer, and
    /// scanners still mid-match stay alive for the next call.
    pub fn curt(&mut self, s: &str)
        requires
            old(self).wf(),
        ensures
            final(self).wf(),
            final(self).checkers() == scan_states(old(self).checkers(), s@, 0, s@.len() as int),
            final(self).extracted() == old(self).extracted() + scan_results(
                old(self).checkers(),
                s@,
                0,
                s@.len() as int,
            ),
    {
        let mut new_results = cut_yaml_unchecked(&mut self.ident_checks, s);
        self.results.append(&mut new_results);
        proof {
            assert(results_view(self.results@) =~= results_view(old(self).results@)
                + scan_results(checkers_view(old(self).ident_checks@), s@, 0, s@.len() as int));
        }
    }

    /// Extract from the chunk with the end-of-text flush, then clear the
    /// chunk — unless a match is still open, in which case the text is kept
    /// so the caller can extend it and feed it again.
    pub fn curt_clear(&mut self, s: &mut String)
        requires
            old(self).wf(),
        ensures
            final(self).wf(),
            final(self).checkers() == reset_open_models(
                full_scan_states(old(self).checkers(), old(s)@),
            ),
            final(self).extracted() == old(self).extracted() + full_scan_results(
                old(self).checkers(),
                old(s)@,
            ),
            final(s)@ == if any_open(full_scan_states(old(self).checkers(), old(s)@)) {
                old(s)@
            } else {
                Seq::<char>::empty()
            },
    {
        let mut new_results = cut_yaml(&mut self.ident_checks, s.as_str());
        self.results.append(&mut new_results);
        proof {
            assert(results_view(self.results@) =~= results_view(old(self).results@)
                + full_scan_results(checkers_view(old(self).ident_checks@), old(s)@));
        }
        if !self.reset_open() {
            *s = String::new();
        }
    }

    /// The buffered results, in the order they were drained.
    pub fn get_results(&self) -> (r: &Vec<Result>)
        ensures
            results_view(r@) == self.extracted(),
    {
        &self.results
    }

    /// Clear the result buffer; the scanners are untouched.
    pub fn clear_results(&mut self)
        requires
            old(self).wf(),
        ensures
            final(self).wf(),
            final(self).checkers() == old(self).checkers(),
            final(self).extracted() == Seq::<ResultModel>::empty(),
    {
        self.results.clear();
    }

    /// Whether any scanner holds a match in progress — the caller's cue to
    /// retain the consumed text.
    pub fn is_open(&self) -> (r: bool)
        ensures
            r == any_open(self.checkers()),
    {
        let mut j: usize = 0;
        while j < self.ident_checks.len()
            invariant
                j <= self.ident_checks@.len(),
                forall|k: int| 0 <= k < j ==> self.ident_checks@[k]@.pos is Out,
            decreases self.ident_checks@.len() - j,
        {
            if self.ident_checks[j].semantic_position != SemanticPosition::Out {
                proof {
                    assert(0 <= j < self.checkers().len() && !(self.checkers()[j as int].pos
                        is Out));
                }
                return true;
            }
            j = j + 1;
        }
        false
    }

    /// Reset every scanner and clear the result buffer.
    pub fn reset(&mut self)
        requires
            old(self).wf(),
        ensures
            final(self).wf(),
            final(self).checkers() == old(self).checkers().map_values(
                |m: CheckerModel| reset_model(m),
            ),
            final(self).extracted() == Seq::<ResultModel>::empty(),
    {
        let ghost pre = checkers_view(self.ident_checks@);
        let mut j: usize = 0;
        while j < self.ident_checks.len()
            invariant
                j <= self.ident_checks@.len(),
                self.ident_checks@.len() == pre.len(),
                forall|k: int| 0 <= k < self.ident_checks@.len() ==> self.ident_checks@[k].wf(),
                forall|k: int| j <= k < pre.len() ==> self.ident_checks@[k]@ == pre[k],
                forall|k: int| 0 <= k < j ==> self.ident_checks@[k]@ == reset_model(pre[k]),
                results_view(self.results@) == results_view(old(self).results@),
            decreases self.ident_checks@.len() - j,
        {
            let ck = &mut self.ident_checks[j];
            reset(ck);
            j = j + 1;
        }
        self.clear_results();
        proof {
            assert(checkers_view(self.ident_checks@) =~= pre.map_values(
                |m: CheckerModel| reset_model(m),
            ));
        }
    }

    /// Force-abandon every open match, reporting whether there was one —
    /// used at end of stream instead of waiting for more input.
    pub fn reset_open(&mut self) -> (r: bool)
        requires
            old(self).wf(),
        ensures
            final(self).wf(),
            final(self).checkers() == reset_open_models(old(self).checkers()),
            final(self).extracted() == old(self).extracted(),
            r == any_open(old(self).checkers()),
    {
        let ghost pre = checkers_view(self.ident_checks@);
        let mut result = false;
        let mut j: usize = 0;
        while j < self.ident_checks.len()
            invariant
                j <= self.ident_checks@.len(),
                self.ident_checks@.len() == pre.len(),
                forall|k: int| 0 <= k < self.ident_checks@.len() ==> self.ident_checks@[k].wf(),
                forall|k: int| j <= k < pre.len() ==> self.ident_checks@[k]@ == pre[k],
                forall|k: int|
                    0 <= k < j ==> self.ident_checks@[k]@ == if pre[k].pos is Out {
                        pre[k]
                    } else {
                        reset_model(pre[k])
                    },
                result == exists|k: int| 0 <= k < j && !(pre[k].pos is Out),
                results_view(self.results@) == results_view(old(self).results@),
            decreases self.ident_checks@.len() - j,
        {
            if self.ident_checks[j].semantic_position != SemanticPosition::Out {
                let ck = &mut self.ident_checks[j];
                reset(ck);
                result = true;
                proof {
                    assert(0 <= j < pre.len() && !(pre[j as int].pos is Out));
                }
            } else {
                proof {
                    assert((exists|k: int| 0 <= k < j + 1 && !(pre[k].pos is Out)) == (exists|
                        k: int,
                    | 0 <= k < j && !(pre[k].pos is Out))) by {
                        if exists|k: int| 0 <= k < j + 1 && !(pre[k].pos is Out) {
                            let k = choose|k: int| 0 <= k < j + 1 && !(pre[k].pos is Out);
                            assert(0 <= k < j && !(pre[k].pos is Out));
                        }
                    }
                }
            }
            j = j + 1;
        }
        proof {
            assert(checkers_view(self.ident_checks@) =~= reset_open_models(pre));
        }
        result
    }
}

} // verus!
