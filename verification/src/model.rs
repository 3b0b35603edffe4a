//! Mathematical model of the extraction automaton.
//!
//! Everything the executable engine promises is stated over these spec
//! functions: a per-scanner transition function, the per-chunk scan that
//! drives every scanner in lockstep, and the shape of each extracted result.

use vstd::prelude::*;

verus! {

/// The delimiter policy of an indicator: which character opens the region,
/// which closes it, and whether the region nests.
#[derive(Clone, Copy, PartialEq, Eq, Structural, Debug)]
pub enum IdentRange {
    /// Begin `:`, end at whitespace/comma/period/newline, no nesting,
    /// minimum accepted length gate.
    Tag,
    /// `[` ... `]`
    Brackets,
    /// `{` ... `}`
    Closures,
    /// `<` ... `>`
    Crickets,
    /// `(` ... `)`
    Rounds,
}

/// The state of one scanner's automaton.
#[derive(Clone, Copy, PartialEq, Eq, Structural, Debug)]
pub enum SemanticPosition {
    /// No match in progress.
    Out,
    /// Some prefix of the indicator token has been seen.
    Ident,
    /// Inside the delimited region.
    In,
    /// Inside a single-quoted stretch of the region.
    InSingleQuote,
    /// Inside a double-quoted stretch of the region.
    InDoubleQuote,
    /// The character after a backslash in a single-quoted stretch.
    InSingleQuoteEscaped,
    /// The character after a backslash in a double-quoted stretch.
    InDoubleQuoteEscaped,
    /// A complete match, waiting to be drained.
    Done,
}

/// The abstract state of one scanner.
pub ghost struct CheckerModel {
    /// The delimiter policy.
    pub range: IdentRange,
    /// The indicator token.
    pub ident: Seq<char>,
    /// The automaton state.
    pub pos: SemanticPosition,
    /// Characters consumed since the token's first character was seen.
    pub length: nat,
    /// Nesting depth of the delimited region.
    pub closures: nat,
}

/// The abstract value of one extracted result.
pub ghost struct ResultModel {
    /// The flow-map-shaped text: `{` + content with the first begin
    /// delimiter replaced by `: ` + `}`.
    pub text: Seq<char>,
    /// Chunk-relative offset of the match's first character.
    pub start: nat,
    /// Chunk-relative offset of the match's closing delimiter.
    pub end: nat,
}

/// The character that opens a delimited region of the given kind.
pub open spec fn begin_of(range: IdentRange) -> char {
    match range {
        IdentRange::Tag => ':',
        IdentRange::Brackets => '[',
        IdentRange::Closures => '{',
        IdentRange::Crickets => '<',
        IdentRange::Rounds => '(',
    }
}

/// The character that closes a delimited region of the given kind.
pub open spec fn end_of(range: IdentRange) -> char {
    match range {
        IdentRange::Tag => '\n',
        IdentRange::Brackets => ']',
        IdentRange::Closures => '}',
        IdentRange::Crickets => '>',
        IdentRange::Rounds => ')',
    }
}

/// The characters that terminate a tag-kind match.
pub open spec fn is_tag_terminator(c: char) -> bool {
    c == ' ' || c == '\n' || c == ',' || c == '.'
}

/// Increment clamped at the machine word, so counters never overflow.
pub open spec fn sat_inc(n: nat) -> nat {
    if n < usize::MAX as nat {
        n + 1
    } else {
        n
    }
}

/// Subtraction clamped at zero.
pub open spec fn sat_sub(a: nat, b: nat) -> nat {
    if a >= b {
        (a - b) as nat
    } else {
        0
    }
}

/// A scanner as it stands before any input: out of any match, with both
/// counters cleared.
pub open spec fn init_model(ident: Seq<char>, range: IdentRange) -> CheckerModel {
    CheckerModel { range, ident, pos: SemanticPosition::Out, length: 0, closures: 0 }
}

/// Clearing a scanner back to its initial state keeps its configuration.
pub open spec fn reset_model(m: CheckerModel) -> CheckerModel {
    CheckerModel { pos: SemanticPosition::Out, length: 0, closures: 0, ..m }
}

/// Out of a match: the token's first character starts one.
pub open spec fn out_step(m: CheckerModel, c: char) -> CheckerModel {
    if c == m.ident[0] {
        CheckerModel { pos: SemanticPosition::Ident, length: 1, ..m }
    } else {
        m
    }
}

/// Matching the token (non-tag kinds): the position within the token must
/// keep matching; once the token is exhausted the begin delimiter must
/// follow.  A mismatching character resets the scanner and is immediately
/// reconsidered as a potential new start.
pub open spec fn ident_step(m: CheckerModel, c: char) -> CheckerModel {
    if m.ident.len() < m.length {
        if c == begin_of(m.range) {
            CheckerModel { pos: SemanticPosition::In, closures: 1, ..m }
        } else {
            out_step(reset_model(m), c)
        }
    } else if c != m.ident[m.length - 1] {
        out_step(reset_model(m), c)
    } else {
        m
    }
}

/// Matching a tag: `:` opens a content region; a terminator accepts the tag
/// when it is long enough and silently discards it otherwise; the sigil
/// itself restarts the match.
pub open spec fn ident_tag_step(m: CheckerModel, c: char) -> CheckerModel {
    if c == begin_of(m.range) {
        CheckerModel { pos: SemanticPosition::In, ..m }
    } else if is_tag_terminator(c) {
        if m.length > 2 {
            CheckerModel { pos: SemanticPosition::Done, ..m }
        } else {
            reset_model(m)
        }
    } else if c == m.ident[0] {
        CheckerModel { length: 1, ..m }
    } else {
        m
    }
}

/// A match is complete exactly when the nesting depth has returned to zero.
pub open spec fn end_step(m: CheckerModel) -> CheckerModel {
    if m.closures == 0 {
        CheckerModel { pos: SemanticPosition::Done, ..m }
    } else {
        m
    }
}

/// Inside the delimited region: the end delimiter closes one nesting level,
/// the begin delimiter opens one, and a quote character enters the matching
/// quoted mode.
pub open spec fn in_step(m: CheckerModel, c: char) -> CheckerModel {
    if c == end_of(m.range) {
        end_step(CheckerModel { closures: sat_sub(m.closures, 1), ..m })
    } else if c == begin_of(m.range) {
        CheckerModel { closures: sat_inc(m.closures), ..m }
    } else if c == '\'' {
        CheckerModel { pos: SemanticPosition::InSingleQuote, ..m }
    } else if c == '"' {
        CheckerModel { pos: SemanticPosition::InDoubleQuote, ..m }
    } else {
        m
    }
}

/// Inside single quotes: the quote closes, a backslash escapes the next
/// character, everything else is opaque.
pub open spec fn single_quote_step(m: CheckerModel, c: char) -> CheckerModel {
    if c == '\'' {
        CheckerModel { pos: SemanticPosition::In, ..m }
    } else if c == '\\' {
        CheckerModel { pos: SemanticPosition::InSingleQuoteEscaped, ..m }
    } else {
        m
    }
}

/// Inside double quotes: the quote closes, a backslash escapes the next
/// character, everything else is opaque.
pub open spec fn double_quote_step(m: CheckerModel, c: char) -> CheckerModel {
    if c == '"' {
        CheckerModel { pos: SemanticPosition::In, ..m }
    } else if c == '\\' {
        CheckerModel { pos: SemanticPosition::InDoubleQuoteEscaped, ..m }
    } else {
        m
    }
}

/// The state dispatch for one character, after the length counter has
/// advanced.  A completed match is drained by the engine; the scanner itself
/// restarts and reconsiders the character as a potential new match start.
pub open spec fn dispatch_step(m: CheckerModel, c: char) -> CheckerModel {
    match m.pos {
        SemanticPosition::Out => out_step(m, c),
        SemanticPosition::Ident => if m.range is Tag {
            ident_tag_step(m, c)
        } else {
            ident_step(m, c)
        },
        SemanticPosition::In => if m.range is Tag && c == end_of(m.range) {
            CheckerModel { pos: SemanticPosition::Done, ..m }
        } else {
            in_step(m, c)
        },
        SemanticPosition::InSingleQuote => single_quote_step(m, c),
        SemanticPosition::InDoubleQuote => double_quote_step(m, c),
        SemanticPosition::InSingleQuoteEscaped => CheckerModel {
            pos: SemanticPosition::InSingleQuote,
            ..m
        },
        SemanticPosition::InDoubleQuoteEscaped => CheckerModel {
            pos: SemanticPosition::InDoubleQuote,
            ..m
        },
        SemanticPosition::Done => out_step(reset_model(m), c),
    }
}

/// Advancing the length counter, as happens for every scanner on every
/// character.
pub open spec fn tick(m: CheckerModel) -> CheckerModel {
    CheckerModel { length: sat_inc(m.length), ..m }
}

/// The complete transition of one scanner on one character.
pub open spec fn checker_step(m: CheckerModel, c: char) -> CheckerModel {
    dispatch_step(tick(m), c)
}

/// One scanner folded over a whole character sequence.
pub open spec fn run_checker(m: CheckerModel, s: Seq<char>) -> CheckerModel
    decreases s.len(),
{
    if s.len() == 0 {
        m
    } else {
        checker_step(run_checker(m, s.drop_last()), s.last())
    }
}

/// A scanner drains a result on the next character exactly when it stands in
/// the terminal state.
pub open spec fn emits(m: CheckerModel) -> bool {
    m.pos is Done
}

/// The first occurrence of the begin delimiter replaced by `: `, turning the
/// raw match into single-entry flow-map text.
pub open spec fn replace_first(s: Seq<char>, b: char) -> Seq<char>
    decreases s.len(),
{
    if s.len() == 0 {
        s
    } else if s[0] == b {
        seq![':', ' '] + s.skip(1)
    } else {
        seq![s[0]] + replace_first(s.skip(1), b)
    }
}

/// The extracted text, wrapped in braces.
pub open spec fn wrap_map(raw: Seq<char>, b: char) -> Seq<char> {
    seq!['{'] + replace_first(raw, b) + seq!['}']
}

/// The result a scanner yields when it is drained at position `i` of chunk
/// `s`.  `m` is the scanner as it stands at the drain, its length counter
/// already advanced; the span is computed backward from `i`, clamped so that
/// it never leaves the chunk.
pub open spec fn extracted_at(m: CheckerModel, s: Seq<char>, i: nat) -> ResultModel {
    let end = sat_sub(i, 1);
    let content_len = sat_sub(m.length, 2);
    let start = sat_sub(end, content_len);
    let stop = if start + content_len <= s.len() {
        start + content_len
    } else {
        s.len()
    };
    ResultModel {
        text: wrap_map(s.subrange(start as int, stop as int), begin_of(m.range)),
        start,
        end,
    }
}

/// One scanner per configured token, all starting out of any match.
pub open spec fn init_checkers(idents: Seq<Seq<char>>, range: IdentRange) -> Seq<CheckerModel> {
    idents.map_values(|id: Seq<char>| init_model(id, range))
}

/// Every scanner advanced over the same character.
pub open spec fn step_all(ms: Seq<CheckerModel>, c: char) -> Seq<CheckerModel> {
    ms.map_values(|m: CheckerModel| checker_step(m, c))
}

/// The results drained while processing one character at position `i`, from
/// the scanners indexed below `j`, in scanner order.
pub open spec fn results_at_upto(ms: Seq<CheckerModel>, s: Seq<char>, i: nat, j: int) -> Seq<
    ResultModel,
>
    decreases j,
{
    if j <= 0 {
        Seq::empty()
    } else {
        results_at_upto(ms, s, i, j - 1) + if emits(ms[j - 1]) {
            seq![extracted_at(tick(ms[j - 1]), s, i)]
        } else {
            Seq::empty()
        }
    }
}

/// The results drained while processing one character at position `i`.
pub open spec fn results_at(ms: Seq<CheckerModel>, s: Seq<char>, i: nat) -> Seq<ResultModel> {
    results_at_upto(ms, s, i, ms.len() as int)
}

/// The scanner states after processing characters `from .. to` of `s`.
pub open spec fn scan_states(ms: Seq<CheckerModel>, s: Seq<char>, from: int, to: int) -> Seq<
    CheckerModel,
>
    decreases to - from,
{
    if to <= from {
        ms
    } else {
        step_all(scan_states(ms, s, from, to - 1), s[to - 1])
    }
}

/// The results drained while processing characters `from .. to` of `s`, in
/// source order, scanner order within one position.
pub open spec fn scan_results(ms: Seq<CheckerModel>, s: Seq<char>, from: int, to: int) -> Seq<
    ResultModel,
>
    decreases to - from,
{
    if to <= from {
        Seq::empty()
    } else {
        scan_results(ms, s, from, to - 1) + results_at(
            scan_states(ms, s, from, to - 1),
            s,
            (to - 1) as nat,
        )
    }
}

/// At the end of a checked pass a scanner is flushed when it holds a
/// completed match, or — for the tag kind — whenever a match is in progress
/// at all, since a tag needs no closing delimiter.
pub open spec fn flush_emits(m: CheckerModel) -> bool {
    m.pos is Done || (m.range is Tag && !(m.pos is Out))
}

/// The end-of-chunk flush advances every length counter once.
pub open spec fn flush_states(ms: Seq<CheckerModel>) -> Seq<CheckerModel> {
    ms.map_values(|m: CheckerModel| tick(m))
}

/// The results the end-of-chunk flush drains from the scanners indexed below
/// `j`.
pub open spec fn flush_results_upto(ms: Seq<CheckerModel>, s: Seq<char>, j: int) -> Seq<
    ResultModel,
>
    decreases j,
{
    if j <= 0 {
        Seq::empty()
    } else {
        flush_results_upto(ms, s, j - 1) + if flush_emits(ms[j - 1]) {
            seq![extracted_at(tick(ms[j - 1]), s, s.len())]
        } else {
            Seq::empty()
        }
    }
}

/// The results the end-of-chunk flush drains, in scanner order.
pub open spec fn flush_results(ms: Seq<CheckerModel>, s: Seq<char>) -> Seq<ResultModel> {
    flush_results_upto(ms, s, ms.len() as int)
}

/// The scanner states after a checked pass over a whole chunk: the plain
/// scan followed by the flush.
pub open spec fn full_scan_states(ms: Seq<CheckerModel>, s: Seq<char>) -> Seq<CheckerModel> {
    flush_states(scan_states(ms, s, 0, s.len() as int))
}

/// Every result of a checked pass over a whole chunk: the plain scan's
/// results followed by the flush's.
pub open spec fn full_scan_results(ms: Seq<CheckerModel>, s: Seq<char>) -> Seq<ResultModel> {
    scan_results(ms, s, 0, s.len() as int) + flush_results(
        scan_states(ms, s, 0, s.len() as int),
        s,
    )
}

/// Some scanner holds a match in progress.
pub open spec fn any_open(ms: Seq<CheckerModel>) -> bool {
    exists|j: int| 0 <= j < ms.len() && !(ms[j].pos is Out)
}

/// Every scanner that holds a match in progress cleared back to its initial
/// state; the others untouched.
pub open spec fn reset_open_models(ms: Seq<CheckerModel>) -> Seq<CheckerModel> {
    ms.map_values(
        |m: CheckerModel|
            if m.pos is Out {
                m
            } else {
                reset_model(m)
            },
    )
}

/// The decimal digit character for a value below ten.
pub open spec fn dec_digit(d: nat) -> char {
    if d == 0 {
        '0'
    } else if d == 1 {
        '1'
    } else if d == 2 {
        '2'
    } else if d == 3 {
        '3'
    } else if d == 4 {
        '4'
    } else if d == 5 {
        '5'
    } else if d == 6 {
        '6'
    } else if d == 7 {
        '7'
    } else if d == 8 {
        '8'
    } else {
        '9'
    }
}

/// The usual decimal rendering of a number, most significant digit first.
pub open spec fn dec_str(n: nat) -> Seq<char>
    decreases n,
{
    if n < 10 {
        seq![dec_digit(n)]
    } else {
        dec_str(n / 10) + seq![dec_digit(n % 10)]
    }
}

/// The annotated rendering of a result: its text followed by its offsets.
pub open spec fn print_view(r: ResultModel) -> Seq<char> {
    r.text + seq![' ', 'a', 't', ' '] + dec_str(r.start) + seq![' ', '-', '>', ' '] + dec_str(
        r.end,
    )
}

} // verus!
