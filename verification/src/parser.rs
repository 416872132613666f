//! Line-oriented recursive-descent parser for dotDSL.
//!
//! The grammar is specified by the `*_spec` functions over character
//! sequences, with all spans measured in UTF-8 bytes, 1-based; the executable
//! parser is proved to produce exactly what they describe.

use vstd::prelude::*;

use crate::diagnostics::{Diagnostic, DiagnosticModel, LoadError, Span};
use crate::model::{
    empty_document_model, Api, ApiModel, Document, DocumentModel, MetadataModel, Response,
    ResponseModel, Route, RouteModel, Server, ServerModel, Spanned, SpannedModel,
};
use crate::strutil::{
    chars_of, dec_digits, is_ws, is_ws_char, lemma_width_of_bounds, lemma_width_of_subrange,
    prefix_widths, string_from_chars, usize_to_string, width_of,
};
use vstd::string::StringExecFns;

verus! {

/// Largest accepted source size, in characters; keeps all span arithmetic
/// far away from `usize` overflow.
pub const MAX_SOURCE_LEN: usize = 0x0100_0000;

// ---------------------------------------------------------------------------
// Line splitting (the behaviour of `str::lines`)
// ---------------------------------------------------------------------------
/// Index of the first newline at or after `from`, or the length.
pub open spec fn find_nl(s: Seq<char>, from: int) -> int
    decreases s.len() - from,
{
    if from < 0 || from >= s.len() {
        s.len() as int
    } else if s[from] == '\n' {
        from
    } else {
        find_nl(s, from + 1)
    }
}

/// Drops one trailing carriage return, if present.
pub open spec fn strip_cr(s: Seq<char>) -> Seq<char> {
    if s.len() > 0 && s.last() == '\r' {
        s.drop_last()
    } else {
        s
    }
}

/// The lines of `s` from position `pos` on: split at `'\n'`, a carriage
/// return directly before the newline removed, no final empty line after a
/// trailing newline.
pub open spec fn lines_from(s: Seq<char>, pos: int) -> Seq<Seq<char>>
    decreases s.len() - pos,
        via lines_from_decreases
{
    if pos < 0 || pos >= s.len() {
        Seq::empty()
    } else {
        let i = find_nl(s, pos);
        if i >= s.len() {
            seq![s.subrange(pos, s.len() as int)]
        } else {
            seq![strip_cr(s.subrange(pos, i))] + lines_from(s, i + 1)
        }
    }
}

#[via_fn]
proof fn lines_from_decreases(s: Seq<char>, pos: int) {
    if 0 <= pos < s.len() {
        lemma_find_nl_bounds(s, pos);
    }
}

/// The lines of a source text.
pub open spec fn spec_lines(s: Seq<char>) -> Seq<Seq<char>> {
    lines_from(s, 0)
}

proof fn lemma_find_nl_bounds(s: Seq<char>, from: int)
    requires
        0 <= from <= s.len(),
    ensures
        from <= find_nl(s, from) <= s.len(),
        find_nl(s, from) < s.len() ==> s[find_nl(s, from)] == '\n',
        forall|j: int| from <= j < find_nl(s, from) ==> s[j] != '\n',
    decreases s.len() - from,
{
    if from < s.len() && s[from] != '\n' {
        lemma_find_nl_bounds(s, from + 1);
    }
}

/// Splits source characters into lines.
fn split_lines(chars: &Vec<char>) -> (lines: Vec<Vec<char>>)
    ensures
        lines.deep_view() == spec_lines(chars@),
        lines.deep_view().len() <= chars@.len(),
        forall|i: int|
            0 <= i < lines.deep_view().len() ==> (#[trigger] lines.deep_view()[i]).len()
                <= chars@.len(),
    decreases chars@.len(),
{
    let n = chars.len();
    let mut lines: Vec<Vec<char>> = Vec::new();
    let mut pos: usize = 0;
    proof {
        assert(lines.deep_view() =~= Seq::<Seq<char>>::empty());
    }
    while pos < n
        invariant
            n == chars@.len(),
            pos <= n,
            lines@.len() <= pos,
            lines.deep_view() + lines_from(chars@, pos as int) =~= spec_lines(chars@),
            forall|i: int|
                0 <= i < lines.deep_view().len() ==> (#[trigger] lines.deep_view()[i]).len()
                    <= chars@.len(),
        decreases n - pos,
    {
        proof {
            lemma_find_nl_bounds(chars@, pos as int);
        }
        let mut i: usize = pos;
        while i < n && chars[i] != '\n'
            invariant
                n == chars@.len(),
                pos <= i <= n,
                forall|j: int| pos <= j < i ==> chars@[j] != '\n',
            decreases n - i,
        {
            i = i + 1;
        }
        proof {
            assert(find_nl(chars@, pos as int) == i as int) by {
                lemma_find_nl_bounds(chars@, pos as int);
                if i < n {
                    assert(chars@[i as int] == '\n');
                }
                let f = find_nl(chars@, pos as int);
                if f < i {
                    assert(chars@[f] != '\n');
                }
            }
        }
        let mut line: Vec<char> = Vec::new();
        let mut j: usize = pos;
        let end = if i < n && i > pos && chars[i - 1] == '\r' {
            i - 1
        } else {
            i
        };
        while j < end
            invariant
                n == chars@.len(),
                pos <= j <= end <= n,
                line@ == chars@.subrange(pos as int, j as int),
            decreases end - j,
        {
            line.push(chars[j]);
            proof {
                assert(chars@.subrange(pos as int, j + 1) =~= chars@.subrange(
                    pos as int,
                    j as int,
                ).push(chars@[j as int]));
            }
            j = j + 1;
        }
        proof {
            let ghost seg = chars@.subrange(pos as int, i as int);
            if i < n {
                if i > pos && chars@[i - 1] == '\r' {
                    assert(line@ =~= strip_cr(seg)) by {
                        assert(seg.last() == chars@[i - 1]);
                        assert(seg.drop_last() =~= chars@.subrange(pos as int, i - 1));
                    }
                } else {
                    assert(line@ =~= strip_cr(seg));
                }
            } else {
                assert(line@ =~= seg);
            }
        }
        let ghost pre = lines.deep_view();
        lines.push(line);
        proof {
            assert(line.deep_view() =~= line@);
            assert(lines.deep_view() =~= pre.push(line@));
            if i < n {
                assert(lines_from(chars@, pos as int) =~= seq![line@] + lines_from(
                    chars@,
                    i + 1,
                ));
                assert(pre.push(line@) + lines_from(chars@, i + 1) =~= pre + (seq![line@]
                    + lines_from(chars@, i + 1)));
            } else {
                assert(lines_from(chars@, pos as int) =~= seq![line@]);
                assert(pre.push(line@) + lines_from(chars@, n as int) =~= pre + seq![line@]);
            }
            assert(line@.len() <= chars@.len());
        }
        if i < n {
            pos = i + 1;
        } else {
            pos = n;
        }
    }
    proof {
        assert(lines.deep_view() + lines_from(chars@, pos as int) =~= lines.deep_view());
    }
    lines
}

// ---------------------------------------------------------------------------
// Whitespace scanning
// ---------------------------------------------------------------------------
/// Index of the first non-whitespace character at or after `from`, or the
/// length.
pub open spec fn first_non_ws(s: Seq<char>, from: int) -> int
    decreases s.len() - from,
{
    if from < 0 || from >= s.len() {
        s.len() as int
    } else if !is_ws(s[from]) {
        from
    } else {
        first_non_ws(s, from + 1)
    }
}

/// Index of the first whitespace character at or after `from`, or the length.
pub open spec fn first_ws(s: Seq<char>, from: int) -> int
    decreases s.len() - from,
{
    if from < 0 || from >= s.len() {
        s.len() as int
    } else if is_ws(s[from]) {
        from
    } else {
        first_ws(s, from + 1)
    }
}

/// Index just after the last non-whitespace character (0 when all blank).
pub open spec fn trim_end_idx(s: Seq<char>) -> int
    decreases s.len(),
{
    if s.len() == 0 {
        0
    } else if is_ws(s.last()) {
        trim_end_idx(s.drop_last())
    } else {
        s.len() as int
    }
}

pub proof fn lemma_first_non_ws_bounds(s: Seq<char>, from: int)
    requires
        0 <= from <= s.len(),
    ensures
        from <= first_non_ws(s, from) <= s.len(),
        first_non_ws(s, from) < s.len() ==> !is_ws(s[first_non_ws(s, from)]),
        forall|j: int| from <= j < first_non_ws(s, from) ==> is_ws(#[trigger] s[j]),
    decreases s.len() - from,
{
    if from < s.len() && is_ws(s[from]) {
        lemma_first_non_ws_bounds(s, from + 1);
    }
}

pub proof fn lemma_first_ws_bounds(s: Seq<char>, from: int)
    requires
        0 <= from <= s.len(),
    ensures
        from <= first_ws(s, from) <= s.len(),
        first_ws(s, from) < s.len() ==> is_ws(s[first_ws(s, from)]),
        forall|j: int| from <= j < first_ws(s, from) ==> !is_ws(#[trigger] s[j]),
    decreases s.len() - from,
{
    if from < s.len() && !is_ws(s[from]) {
        lemma_first_ws_bounds(s, from + 1);
    }
}

pub proof fn lemma_trim_end_bounds(s: Seq<char>)
    ensures
        0 <= trim_end_idx(s) <= s.len(),
        trim_end_idx(s) > 0 ==> !is_ws(s[trim_end_idx(s) - 1]),
        forall|j: int| trim_end_idx(s) <= j < s.len() ==> is_ws(#[trigger] s[j]),
    decreases s.len(),
{
    if s.len() != 0 && is_ws(s.last()) {
        lemma_trim_end_bounds(s.drop_last());
        assert(forall|j: int|
            0 <= j < s.len() - 1 ==> s.drop_last()[j] == #[trigger] s[j]);
    }
}

/// Finds the first non-whitespace index in `chars[from..to]`.
pub(crate) fn scan_non_ws(chars: &Vec<char>, from: usize, to: usize) -> (r: usize)
    requires
        from <= to <= chars@.len(),
    ensures
        r == first_non_ws(chars@.take(to as int), from as int),
        from <= r <= to,
    decreases to - from,
{
    let ghost s = chars@.take(to as int);
    let mut i: usize = from;
    while i < to && is_ws_char(chars[i])
        invariant
            from <= i <= to <= chars@.len(),
            s == chars@.take(to as int),
            forall|j: int| from <= j < i ==> is_ws(#[trigger] s[j]),
        decreases to - i,
    {
        i = i + 1;
    }
    proof {
        lemma_first_non_ws_bounds(s, from as int);
        let f = first_non_ws(s, from as int);
        if f < i {
            assert(is_ws(s[f]));
        }
        if i < to {
            assert(!is_ws(s[i as int]));
        }
    }
    i
}

/// Finds the first whitespace index in `chars[from..to]`.
pub(crate) fn scan_ws(chars: &Vec<char>, from: usize, to: usize) -> (r: usize)
    requires
        from <= to <= chars@.len(),
    ensures
        r == first_ws(chars@.take(to as int), from as int),
        from <= r <= to,
    decreases to - from,
{
    let ghost s = chars@.take(to as int);
    let mut i: usize = from;
    while i < to && !is_ws_char(chars[i])
        invariant
            from <= i <= to <= chars@.len(),
            s == chars@.take(to as int),
            forall|j: int| from <= j < i ==> !is_ws(#[trigger] s[j]),
        decreases to - i,
    {
        i = i + 1;
    }
    proof {
        lemma_first_ws_bounds(s, from as int);
        let f = first_ws(s, from as int);
        if f < i {
            assert(!is_ws(s[f]));
        }
        if i < to {
            assert(is_ws(s[i as int]));
        }
    }
    i
}

/// Finds the end-trim index of `chars`.
fn scan_trim_end(chars: &Vec<char>) -> (r: usize)
    ensures
        r == trim_end_idx(chars@),
        r <= chars@.len(),
{
    let mut i: usize = chars.len();
    proof {
        assert(chars@.take(chars@.len() as int) =~= chars@);
    }
    while i > 0 && is_ws_char(chars[i - 1])
        invariant
            i <= chars@.len(),
            trim_end_idx(chars@) == trim_end_idx(chars@.take(i as int)),
            forall|j: int| i <= j < chars@.len() ==> is_ws(#[trigger] chars@[j]),
        decreases i,
    {
        proof {
            assert(chars@.take(i as int).drop_last() =~= chars@.take(i - 1));
            assert(chars@.take(i as int).last() == chars@[i - 1]);
        }
        i = i - 1;
    }
    proof {
        assert(chars@.take(chars@.len() as int) =~= chars@);
        if i > 0 {
            assert(chars@.take(i as int).last() == chars@[i - 1]);
            assert(trim_end_idx(chars@.take(i as int)) == i as int);
        } else {
            assert(chars@.take(0) =~= Seq::<char>::empty());
        }
    }
    i
}

// ---------------------------------------------------------------------------
// Token scanning
// ---------------------------------------------------------------------------
/// A span, from 1-based integer coordinates.
pub open spec fn mk_span(line_no: int, col: int, len: int) -> Span {
    Span { line: line_no as usize, column: col as usize, length: len as usize }
}

/// Outcome of scanning for a single bare token.
pub enum TokenOutcome {
    /// Nothing but whitespace; the span points at the cursor.
    Missing(Span),
    /// A token followed by more content where none is allowed; the span
    /// covers the trailing run.
    Trailing(Span),
    /// The token and its span.
    Token(Seq<char>, Span),
}

/// Scans `input` (the remainder of a statement line) for one token, rejecting
/// trailing content. `base_col` is the 1-based byte column where `input`
/// starts on its line.
pub open spec fn single_token_spec(input: Seq<char>, line_no: int, base_col: int) -> TokenOutcome {
    let lead = first_non_ws(input, 0);
    if lead == input.len() {
        TokenOutcome::Missing(mk_span(line_no, base_col + width_of(input.take(lead)), 1))
    } else {
        let tok_end = first_ws(input, lead);
        let trail = first_non_ws(input, tok_end);
        if trail < input.len() {
            TokenOutcome::Trailing(
                mk_span(
                    line_no,
                    base_col + width_of(input.take(trail)),
                    width_of(input.subrange(trail, trim_end_idx(input))),
                ),
            )
        } else {
            TokenOutcome::Token(
                input.subrange(lead, tok_end),
                mk_span(
                    line_no,
                    base_col + width_of(input.take(lead)),
                    width_of(input.subrange(lead, tok_end)),
                ),
            )
        }
    }
}

/// Like `single_token_spec` but tolerating trailing content (more tokens may
/// follow).
pub open spec fn token_prefix_spec(input: Seq<char>, line_no: int, base_col: int) -> TokenOutcome {
    let lead = first_non_ws(input, 0);
    if lead == input.len() {
        TokenOutcome::Missing(mk_span(line_no, base_col + width_of(input.take(lead)), 1))
    } else {
        let tok_end = first_ws(input, lead);
        TokenOutcome::Token(
            input.subrange(lead, tok_end),
            mk_span(
                line_no,
                base_col + width_of(input.take(lead)),
                width_of(input.subrange(lead, tok_end)),
            ),
        )
    }
}

/// Outcome of scanning for a quoted string.
pub enum QuotedOutcome {
    /// No opening quote at the cursor.
    Missing(Span),
    /// An opening quote without a closing one; the span covers the rest.
    Unterminated(Span),
    /// A closed string followed by more content; the span covers the
    /// trailing run.
    Trailing(Span),
    /// The unescaped value and a span from the opening through the closing
    /// quote.
    Quoted(Seq<char>, Span),
}

/// Index of the first unescaped double quote at or after `i`, or the length.
pub open spec fn close_from(s: Seq<char>, i: int, escaped: bool) -> int
    decreases s.len() - i,
{
    if i < 0 || i >= s.len() {
        s.len() as int
    } else if escaped {
        close_from(s, i + 1, false)
    } else if s[i] == '\\' {
        close_from(s, i + 1, true)
    } else if s[i] == '"' {
        i
    } else {
        close_from(s, i + 1, false)
    }
}

proof fn lemma_close_from_bounds(s: Seq<char>, i: int, escaped: bool)
    requires
        0 <= i <= s.len(),
    ensures
        i <= close_from(s, i, escaped) <= s.len(),
    decreases s.len() - i,
{
    if i < s.len() {
        if escaped {
            lemma_close_from_bounds(s, i + 1, false);
        } else if s[i] == '\\' {
            lemma_close_from_bounds(s, i + 1, true);
        } else if s[i] != '"' {
            lemma_close_from_bounds(s, i + 1, false);
        }
    }
}

/// Resolves the escapes `\"`, `\\`, `\n`, `\t`; any other `\x` is kept as the
/// two characters; a lone trailing backslash is kept.
pub open spec fn unescape_spec(s: Seq<char>) -> Seq<char>
    decreases s.len(),
{
    if s.len() == 0 {
        Seq::empty()
    } else if s[0] == '\\' {
        if s.len() == 1 {
            seq!['\\']
        } else {
            let piece = if s[1] == '"' {
                seq!['"']
            } else if s[1] == '\\' {
                seq!['\\']
            } else if s[1] == 'n' {
                seq!['\n']
            } else if s[1] == 't' {
                seq!['\t']
            } else {
                seq!['\\', s[1]]
            };
            piece + unescape_spec(s.subrange(2, s.len() as int))
        }
    } else {
        seq![s[0]] + unescape_spec(s.subrange(1, s.len() as int))
    }
}

/// Scans `input` for a quoted string literal.
pub open spec fn quoted_spec(input: Seq<char>, line_no: int, base_col: int) -> QuotedOutcome {
    let lead = first_non_ws(input, 0);
    if lead == input.len() || input[lead] != '"' {
        QuotedOutcome::Missing(mk_span(line_no, base_col + width_of(input.take(lead)), 1))
    } else {
        let close = close_from(input, lead + 1, false);
        if close == input.len() {
            QuotedOutcome::Unterminated(
                mk_span(
                    line_no,
                    base_col + width_of(input.take(lead)),
                    width_of(input.subrange(lead, input.len() as int)),
                ),
            )
        } else {
            let trail = first_non_ws(input, close + 1);
            if trail < input.len() {
                QuotedOutcome::Trailing(
                    mk_span(
                        line_no,
                        base_col + width_of(input.take(trail)),
                        width_of(input.subrange(trail, trim_end_idx(input))),
                    ),
                )
            } else {
                QuotedOutcome::Quoted(
                    unescape_spec(input.subrange(lead + 1, close)),
                    mk_span(
                        line_no,
                        base_col + width_of(input.take(lead)),
                        width_of(input.subrange(lead, close + 1)),
                    ),
                )
            }
        }
    }
}

/// A decimal digit.
pub open spec fn is_digit(c: char) -> bool {
    0x30 <= (c as u32) <= 0x39
}

pub open spec fn all_digits(s: Seq<char>) -> bool {
    forall|i: int| 0 <= i < s.len() ==> is_digit(#[trigger] s[i])
}

/// The value of a digit string.
pub open spec fn digits_val(s: Seq<char>) -> int
    decreases s.len(),
{
    if s.len() == 0 {
        0
    } else {
        digits_val(s.drop_last()) * 10 + ((s.last() as u32) - 0x30)
    }
}

/// The digits of a number token: everything after an optional leading `+`.
pub open spec fn u16_body(s: Seq<char>) -> Seq<char> {
    if s.len() > 0 && s[0] == '+' {
        s.drop_first()
    } else {
        s
    }
}

/// A `u16` parsed as `str::parse` does: an optional leading `+`, then one or
/// more decimal digits, value at most 65535.
pub open spec fn parse_u16_spec(s: Seq<char>) -> Option<u16> {
    if u16_body(s).len() == 0 || !all_digits(u16_body(s)) || digits_val(u16_body(s)) > 65535 {
        None
    } else {
        Some(digits_val(u16_body(s)) as u16)
    }
}

proof fn lemma_digits_val_nonneg(s: Seq<char>)
    requires
        all_digits(s),
    ensures
        digits_val(s) >= 0,
    decreases s.len(),
{
    if s.len() != 0 {
        assert(forall|i: int| 0 <= i < s.len() - 1 ==> s.drop_last()[i] == #[trigger] s[i]);
        lemma_digits_val_nonneg(s.drop_last());
    }
}

proof fn lemma_digits_val_prefix_le(s: Seq<char>, i: int)
    requires
        all_digits(s),
        0 <= i <= s.len(),
    ensures
        digits_val(s.take(i)) <= digits_val(s),
    decreases s.len() - i,
{
    if i < s.len() {
        lemma_digits_val_prefix_le(s, i + 1);
        assert(s.take(i + 1).drop_last() =~= s.take(i));
        assert(s.take(i + 1).last() == s[i]);
        assert(forall|j: int| 0 <= j < i + 1 ==> s.take(i + 1)[j] == #[trigger] s[j]);
        lemma_digits_val_nonneg(s.take(i));
    } else {
        assert(s.take(i) =~= s);
    }
}

/// Parses a token as a `u16`, exactly as `str::parse` would.
fn parse_u16_chars(tok: &Vec<char>) -> (r: Option<u16>)
    ensures
        r == parse_u16_spec(tok@),
{
    let n = tok.len();
    let start: usize = if n > 0 && tok[0] == '+' {
        1
    } else {
        0
    };
    let ghost body = u16_body(tok@);
    proof {
        assert(body =~= tok@.subrange(start as int, n as int));
    }
    if n == start {
        return None;
    }
    let mut val: u32 = 0;
    let mut i: usize = start;
    proof {
        assert(body.take(0) =~= Seq::<char>::empty());
    }
    while i < n
        invariant
            start <= i <= n,
            n == tok@.len(),
            body == u16_body(tok@),
            body == tok@.subrange(start as int, n as int),
            forall|j: int| 0 <= j < i - start ==> is_digit(#[trigger] body[j]),
            val == digits_val(body.take(i - start)),
            val <= 65535,
        decreases n - i,
    {
        let c = tok[i];
        let u = c as u32;
        if u < 0x30 || u > 0x39 {
            proof {
                assert(body[i - start] == tok@[i as int]);
                assert(!is_digit(u16_body(tok@)[i - start]));
            }
            return None;
        }
        let d = u - 0x30;
        let next = val * 10 + d;
        proof {
            assert(body.take(i - start + 1).drop_last() =~= body.take(i - start));
            assert(body.take(i - start + 1).last() == body[i - start]);
            assert(body[i - start] == tok@[i as int]);
        }
        if next > 65535 {
            proof {
                let k = i - start + 1;
                assert(digits_val(body.take(k)) == next);
                if all_digits(u16_body(tok@)) {
                    lemma_digits_val_prefix_le(u16_body(tok@), k);
                    assert(digits_val(u16_body(tok@)) > 65535);
                }
            }
            return None;
        }
        val = next;
        i = i + 1;
    }
    proof {
        assert(body.take(n - start) =~= body);
        assert(all_digits(u16_body(tok@)));
        assert(digits_val(u16_body(tok@)) == val);
    }
    Some(val as u16)
}

// ---------------------------------------------------------------------------
// Executable scanners
// ---------------------------------------------------------------------------
/// Copies `chars[from..to]` into a fresh vector.
pub(crate) fn subvec(chars: &Vec<char>, from: usize, to: usize) -> (v: Vec<char>)
    requires
        from <= to <= chars@.len(),
    ensures
        v@ == chars@.subrange(from as int, to as int),
{
    let mut v: Vec<char> = Vec::new();
    let mut i: usize = from;
    proof {
        assert(v@ =~= chars@.subrange(from as int, from as int));
    }
    while i < to
        invariant
            from <= i <= to <= chars@.len(),
            v@ == chars@.subrange(from as int, i as int),
        decreases to - i,
    {
        v.push(chars[i]);
        proof {
            assert(chars@.subrange(from as int, i + 1) =~= chars@.subrange(
                from as int,
                i as int,
            ).push(chars@[i as int]));
        }
        i = i + 1;
    }
    v
}

/// Every span a scanner yields stays within these bounds.
pub open spec fn span_bounded(sp: Span, line_no: int, base_col: int, len: int) -> bool {
    &&& sp.line == line_no
    &&& base_col <= sp.column <= base_col + 4 * len
    &&& 1 <= sp.length <= 4 * len + 1
}

enum TokenScan {
    Missing(Span),
    Trailing(Span),
    Token(String, Span),
}

enum QuotedScan {
    Missing(Span),
    Unterminated(Span),
    Trailing(Span),
    Quoted(String, Span),
}

/// Scans one bare token, rejecting trailing content.
fn scan_single_token(input: &Vec<char>, line_no: usize, base_col: usize) -> (r: TokenScan)
    requires
        input@.len() <= MAX_SOURCE_LEN,
        base_col <= 0x1000_0000,
    ensures
        match single_token_spec(input@, line_no as int, base_col as int) {
            TokenOutcome::Missing(sp) => span_bounded(sp, line_no as int, base_col as int, input@.len() as int),
            TokenOutcome::Trailing(sp) => span_bounded(sp, line_no as int, base_col as int, input@.len() as int),
            TokenOutcome::Token(tok, sp) => span_bounded(sp, line_no as int, base_col as int, input@.len() as int),
        },
        match single_token_spec(input@, line_no as int, base_col as int) {
            TokenOutcome::Missing(sp) => r matches TokenScan::Missing(s) && s == sp,
            TokenOutcome::Trailing(sp) => r matches TokenScan::Trailing(s) && s == sp,
            TokenOutcome::Token(tok, sp) => r matches TokenScan::Token(v, s) && v@ == tok && s
                == sp,
        },
{
    let w = prefix_widths(input);
    let to = input.len();
    proof {
        assert(input@.take(to as int) =~= input@);
        lemma_width_of_bounds(input@);
    }
    let lead = scan_non_ws(input, 0, to);
    if lead == to {
        proof {
            lemma_width_of_bounds(input@.take(lead as int));
        }
        return TokenScan::Missing(Span::new(line_no, base_col + w[lead], 1));
    }
    let tok_end = scan_ws(input, lead, to);
    let trail = scan_non_ws(input, tok_end, to);
    if trail < to {
        let trim = scan_trim_end(input);
        proof {
            lemma_trim_end_bounds(input@);
            lemma_first_non_ws_bounds(input@, tok_end as int);
            assert(!is_ws(input@[trail as int]));
            assert(trail < trim_end_idx(input@));
            lemma_width_of_subrange(input@, trail as int, trim as int);
            lemma_width_of_bounds(input@.subrange(trail as int, trim as int));
            lemma_width_of_bounds(input@.take(trail as int));
        }
        return TokenScan::Trailing(Span::new(line_no, base_col + w[trail], w[trim] - w[trail]));
    }
    proof {
        lemma_first_non_ws_bounds(input@, 0);
        lemma_first_ws_bounds(input@, lead as int);
        if tok_end == lead {
            assert(is_ws(input@[lead as int]));
        }
        lemma_width_of_subrange(input@, lead as int, tok_end as int);
        lemma_width_of_bounds(input@.subrange(lead as int, tok_end as int));
        lemma_width_of_bounds(input@.take(lead as int));
    }
    let tok = subvec(input, lead, tok_end);
    TokenScan::Token(
        string_from_chars(&tok),
        Span::new(line_no, base_col + w[lead], w[tok_end] - w[lead]),
    )
}

/// Scans one bare token; content may follow it.
fn scan_token_prefix(input: &Vec<char>, line_no: usize, base_col: usize) -> (r: TokenScan)
    requires
        input@.len() <= MAX_SOURCE_LEN,
        base_col <= 0x1000_0000,
    ensures
        match token_prefix_spec(input@, line_no as int, base_col as int) {
            TokenOutcome::Missing(sp) => span_bounded(sp, line_no as int, base_col as int, input@.len() as int),
            TokenOutcome::Trailing(sp) => span_bounded(sp, line_no as int, base_col as int, input@.len() as int),
            TokenOutcome::Token(tok, sp) => span_bounded(sp, line_no as int, base_col as int, input@.len() as int),
        },
        match token_prefix_spec(input@, line_no as int, base_col as int) {
            TokenOutcome::Missing(sp) => r matches TokenScan::Missing(s) && s == sp,
            TokenOutcome::Trailing(sp) => r matches TokenScan::Trailing(s) && s == sp,
            TokenOutcome::Token(tok, sp) => r matches TokenScan::Token(v, s) && v@ == tok && s
                == sp,
        },
        r is Missing || r is Token,
{
    let w = prefix_widths(input);
    let to = input.len();
    proof {
        assert(input@.take(to as int) =~= input@);
        lemma_width_of_bounds(input@);
    }
    let lead = scan_non_ws(input, 0, to);
    if lead == to {
        proof {
            lemma_width_of_bounds(input@.take(lead as int));
        }
        return TokenScan::Missing(Span::new(line_no, base_col + w[lead], 1));
    }
    let tok_end = scan_ws(input, lead, to);
    proof {
        lemma_first_non_ws_bounds(input@, 0);
        lemma_first_ws_bounds(input@, lead as int);
        if tok_end == lead {
            assert(is_ws(input@[lead as int]));
        }
        lemma_width_of_subrange(input@, lead as int, tok_end as int);
        lemma_width_of_bounds(input@.subrange(lead as int, tok_end as int));
        lemma_width_of_bounds(input@.take(lead as int));
    }
    let tok = subvec(input, lead, tok_end);
    TokenScan::Token(
        string_from_chars(&tok),
        Span::new(line_no, base_col + w[lead], w[tok_end] - w[lead]),
    )
}

/// Resolves the string escapes.
fn unescape_chars(raw: &Vec<char>) -> (v: Vec<char>)
    ensures
        v@ == unescape_spec(raw@),
    decreases raw@.len(),
{
    let n = raw.len();
    let mut out: Vec<char> = Vec::new();
    let mut i: usize = 0;
    proof {
        assert(out@ =~= Seq::<char>::empty());
        assert(raw@.subrange(0, n as int) =~= raw@);
    }
    while i < n
        invariant
            i <= n,
            n == raw@.len(),
            unescape_spec(raw@) == out@ + unescape_spec(raw@.subrange(i as int, n as int)),
        decreases n - i,
    {
        let ghost rest = raw@.subrange(i as int, n as int);
        proof {
            assert(rest[0] == raw@[i as int]);
        }
        let c = raw[i];
        if c == '\\' {
            if i + 1 < n {
                proof {
                    assert(rest[1] == raw@[i + 1]);
                    assert(rest.subrange(2, rest.len() as int) =~= raw@.subrange(i + 2, n as int));
                }
                let next = raw[i + 1];
                let ghost pre = out@;
                if next == '"' {
                    push_char_vec(&mut out, '"');
                    proof {
                        assert(pre + unescape_spec(rest) =~= out@ + unescape_spec(
                            raw@.subrange(i + 2, n as int),
                        ));
                    }
                } else if next == '\\' {
                    push_char_vec(&mut out, '\\');
                    proof {
                        assert(pre + unescape_spec(rest) =~= out@ + unescape_spec(
                            raw@.subrange(i + 2, n as int),
                        ));
                    }
                } else if next == 'n' {
                    push_char_vec(&mut out, '\n');
                    proof {
                        assert(pre + unescape_spec(rest) =~= out@ + unescape_spec(
                            raw@.subrange(i + 2, n as int),
                        ));
                    }
                } else if next == 't' {
                    push_char_vec(&mut out, '\t');
                    proof {
                        assert(pre + unescape_spec(rest) =~= out@ + unescape_spec(
                            raw@.subrange(i + 2, n as int),
                        ));
                    }
                } else {
                    push_char_vec(&mut out, '\\');
                    push_char_vec(&mut out, next);
                    proof {
                        assert(pre + unescape_spec(rest) =~= out@ + unescape_spec(
                            raw@.subrange(i + 2, n as int),
                        ));
                    }
                }
                i = i + 2;
            } else {
                proof {
                    assert(rest.len() == 1);
                    assert(unescape_spec(rest) =~= seq!['\\']);
                    assert(raw@.subrange(n as int, n as int) =~= Seq::<char>::empty());
                    assert(unescape_spec(raw@.subrange(n as int, n as int)) =~= Seq::<
                        char,
                    >::empty());
                }
                let ghost pre = out@;
                push_char_vec(&mut out, '\\');
                proof {
                    assert(pre + unescape_spec(rest) =~= out@ + unescape_spec(
                        raw@.subrange(i + 1, n as int),
                    ));
                }
                i = i + 1;
            }
        } else {
            proof {
                assert(rest.subrange(1, rest.len() as int) =~= raw@.subrange(i + 1, n as int));
            }
            let ghost pre = out@;
            push_char_vec(&mut out, c);
            proof {
                assert(pre + unescape_spec(rest) =~= out@ + unescape_spec(
                    raw@.subrange(i + 1, n as int),
                ));
            }
            i = i + 1;
        }
    }
    proof {
        assert(raw@.subrange(n as int, n as int) =~= Seq::<char>::empty());
        assert(unescape_spec(raw@) =~= out@);
    }
    out
}

fn push_char_vec(out: &mut Vec<char>, c: char)
    ensures
        final(out)@ == old(out)@.push(c),
{
    out.push(c);
}

/// Scans one quoted string literal.
fn scan_quoted(input: &Vec<char>, line_no: usize, base_col: usize) -> (r: QuotedScan)
    requires
        input@.len() <= MAX_SOURCE_LEN,
        base_col <= 0x1000_0000,
    ensures
        match quoted_spec(input@, line_no as int, base_col as int) {
            QuotedOutcome::Missing(sp) => span_bounded(sp, line_no as int, base_col as int, input@.len() as int),
            QuotedOutcome::Unterminated(sp) => span_bounded(sp, line_no as int, base_col as int, input@.len() as int),
            QuotedOutcome::Trailing(sp) => span_bounded(sp, line_no as int, base_col as int, input@.len() as int),
            QuotedOutcome::Quoted(value, sp) => span_bounded(sp, line_no as int, base_col as int, input@.len() as int),
        },
        match quoted_spec(input@, line_no as int, base_col as int) {
            QuotedOutcome::Missing(sp) => r matches QuotedScan::Missing(s) && s == sp,
            QuotedOutcome::Unterminated(sp) => r matches QuotedScan::Unterminated(s) && s == sp,
            QuotedOutcome::Trailing(sp) => r matches QuotedScan::Trailing(s) && s == sp,
            QuotedOutcome::Quoted(value, sp) => r matches QuotedScan::Quoted(v, s) && v@ == value
                && s == sp,
        },
{
    let w = prefix_widths(input);
    let to = input.len();
    proof {
        assert(input@.take(to as int) =~= input@);
        lemma_width_of_bounds(input@);
    }
    let lead = scan_non_ws(input, 0, to);
    if lead == to || input[lead] != '"' {
        proof {
            lemma_width_of_bounds(input@.take(lead as int));
        }
        return QuotedScan::Missing(Span::new(line_no, base_col + w[lead], 1));
    }
    // find the closing quote
    let mut close: usize = lead + 1;
    let mut escaped: bool = false;
    while close < to && (escaped || (input[close] != '"'))
        invariant
            lead + 1 <= close <= to,
            to == input@.len(),
            close_from(input@, lead + 1, false) == close_from(input@, close as int, escaped),
        decreases to - close,
    {
        if escaped {
            escaped = false;
        } else if input[close] == '\\' {
            escaped = true;
        }
        close = close + 1;
    }
    if close == to {
        proof {
            lemma_width_of_subrange(input@, lead as int, to as int);
            lemma_width_of_bounds(input@.subrange(lead as int, to as int));
            lemma_width_of_bounds(input@.take(lead as int));
        }
        return QuotedScan::Unterminated(
            Span::new(line_no, base_col + w[lead], w[to] - w[lead]),
        );
    }
    proof {
        assert(close_from(input@, lead + 1, false) == close as int);
    }
    let trail = scan_non_ws(input, close + 1, to);
    if trail < to {
        let trim = scan_trim_end(input);
        proof {
            lemma_trim_end_bounds(input@);
            lemma_first_non_ws_bounds(input@, close + 1);
            assert(!is_ws(input@[trail as int]));
            assert(trail < trim_end_idx(input@));
            lemma_width_of_subrange(input@, trail as int, trim as int);
            lemma_width_of_bounds(input@.subrange(trail as int, trim as int));
            lemma_width_of_bounds(input@.take(trail as int));
        }
        return QuotedScan::Trailing(Span::new(line_no, base_col + w[trail], w[trim] - w[trail]));
    }
    proof {
        lemma_width_of_subrange(input@, lead as int, close + 1);
        lemma_width_of_bounds(input@.subrange(lead as int, close + 1));
        lemma_width_of_bounds(input@.take(lead as int));
    }
    let raw = subvec(input, lead + 1, close);
    let value = unescape_chars(&raw);
    QuotedScan::Quoted(
        string_from_chars(&value),
        Span::new(line_no, base_col + w[lead], w[close + 1] - w[lead]),
    )
}

// ---------------------------------------------------------------------------
// Statements
// ---------------------------------------------------------------------------
/// A parser context frame: inside an `api` block, or inside a `route` block.
#[derive(Clone, Copy, Debug, PartialEq, Eq, Structural)]
pub enum Context {
    Api { api_index: usize },
    Route { api_index: usize, route_index: usize },
}

/// `line` opens with keyword `kw` followed by a space.
pub open spec fn starts_kw(line: Seq<char>, kw: Seq<char>) -> bool {
    line.len() > kw.len() && line.take(kw.len() as int) == kw && line[kw.len() as int] == ' '
}

/// `line` is the keyword alone, or the keyword followed by a space.
pub open spec fn has_kw(line: Seq<char>, kw: Seq<char>) -> bool {
    line == kw || starts_kw(line, kw)
}

enum KwForm {
    Exact,
    Spaced,
    No,
}

/// Classifies `line` against a keyword.
fn kw_match(line: &Vec<char>, kw: &str) -> (r: KwForm)
    ensures
        (r is Exact) == (line@ == kw@),
        (r is Spaced) == starts_kw(line@, kw@),
{
    let kchars = chars_of(kw);
    let k = kchars.len();
    if line.len() < k {
        proof {
            assert(line@ != kw@);
        }
        return KwForm::No;
    }
    let mut i: usize = 0;
    while i < k
        invariant
            i <= k,
            k == kw@.len(),
            k <= line@.len(),
            kchars@ == kw@,
            forall|j: int| 0 <= j < i ==> line@[j] == kw@[j],
        decreases k - i,
    {
        if line[i] != kchars[i] {
            proof {
                assert(line@[i as int] != kw@[i as int]);
                if line@ == kw@ {
                    assert(line@[i as int] == kw@[i as int]);
                }
                if starts_kw(line@, kw@) {
                    assert(line@.take(k as int)[i as int] == line@[i as int]);
                }
            }
            return KwForm::No;
        }
        i = i + 1;
    }
    if line.len() == k {
        proof {
            assert(line@ =~= kw@);
        }
        KwForm::Exact
    } else if line[k] == ' ' {
        proof {
            assert(line@.take(k as int) =~= kw@);
            assert(line@ != kw@);
        }
        KwForm::Spaced
    } else {
        proof {
            assert(line@ != kw@);
            if starts_kw(line@, kw@) {
                assert(line@[k as int] == ' ');
            }
        }
        KwForm::No
    }
}

/// Semantic path of the `i`-th api.
pub open spec fn spec_path_api(i: int) -> Seq<char> {
    "apis["@ + dec_digits(i as nat) + "]"@
}

/// Semantic path of the `i`-th api's route list.
pub open spec fn spec_path_routes(i: int) -> Seq<char> {
    spec_path_api(i) + ".routes"@
}

/// Semantic path of route `j` of api `i`.
pub open spec fn spec_path_route(i: int, j: int) -> Seq<char> {
    spec_path_routes(i) + "["@ + dec_digits(j as nat) + "]"@
}

pub fn path_api(i: usize) -> (s: String)
    ensures
        s@ == spec_path_api(i as int),
{
    let mut s = String::from_str("apis[");
    let d = usize_to_string(i);
    s.append(d.as_str());
    s.append("]");
    proof {
        assert(s@ =~= spec_path_api(i as int));
    }
    s
}

pub fn path_routes(i: usize) -> (s: String)
    ensures
        s@ == spec_path_routes(i as int),
{
    let mut s = path_api(i);
    s.append(".routes");
    proof {
        assert(s@ =~= spec_path_routes(i as int));
    }
    s
}

pub fn path_route(i: usize, j: usize) -> (s: String)
    ensures
        s@ == spec_path_route(i as int, j as int),
{
    let mut s = path_routes(i);
    s.append("[");
    let d = usize_to_string(j);
    s.append(d.as_str());
    s.append("]");
    proof {
        assert(s@ =~= spec_path_route(i as int, j as int));
    }
    s
}

/// A diagnostic model from its parts.
pub open spec fn mk_diag(path: Seq<char>, span: Span, msg: Seq<char>) -> DiagnosticModel {
    DiagnosticModel { semantic_path: path, span, message: msg }
}

pub(crate) fn diag_str(path: &str, span: Span, msg: &str) -> (d: Diagnostic)
    ensures
        d@ == mk_diag(path@, span, msg@),
{
    Diagnostic::new(String::from_str(path), span, String::from_str(msg))
}

pub(crate) fn diag_owned(path: String, span: Span, msg: &str) -> (d: Diagnostic)
    ensures
        d@ == mk_diag(path@, span, msg@),
{
    Diagnostic::new(path, span, String::from_str(msg))
}

/// The first whitespace-delimited token of a trimmed, non-empty line.
pub open spec fn spec_first_token(line: Seq<char>) -> Seq<char> {
    line.subrange(0, first_ws(line, 0))
}

/// The message for an unknown statement, naming its first token.
pub open spec fn msg_unknown_statement(line: Seq<char>) -> Seq<char> {
    "unknown statement `"@ + spec_first_token(line) + "`"@
}

fn build_msg_unknown_statement(line: &Vec<char>) -> (s: String)
    ensures
        s@ == msg_unknown_statement(line@),
{
    let tok_end = scan_ws(line, 0, line.len());
    proof {
        assert(line@.take(line@.len() as int) =~= line@);
    }
    let mut s = String::from_str("unknown statement `");
    crate::strutil::append_char_range(&mut s, line, 0, tok_end);
    s.append("`");
    proof {
        assert(s@ =~= msg_unknown_statement(line@));
    }
    s
}

/// One top-level statement line applied to the document being built.
pub open spec fn top_level_spec(
    doc: DocumentModel,
    stack: Seq<Context>,
    line: Seq<char>,
    no: int,
    col: int,
) -> Result<(DocumentModel, Seq<Context>), DiagnosticModel> {
    if line == "end"@ {
        Err(mk_diag("root"@, mk_span(no, col, 3), "unexpected `end` at top level"@))
    } else if has_kw(line, "dot"@) {
        if doc.version is Some {
            Err(
                mk_diag(
                    "version"@,
                    mk_span(no, col, width_of(line)),
                    "duplicate `dot` version directive"@,
                ),
            )
        } else {
            match single_token_spec(line.subrange(3, line.len() as int), no, col + 3) {
                TokenOutcome::Missing(sp) => Err(mk_diag("version"@, sp, "missing dot version"@)),
                TokenOutcome::Trailing(sp) => Err(
                    mk_diag("version"@, sp, "unexpected trailing content"@),
                ),
                TokenOutcome::Token(tok, sp) => Ok(
                    (
                        DocumentModel {
                            version: Some(SpannedModel { value: tok, span: sp }),
                            ..doc
                        },
                        stack,
                    ),
                ),
            }
        }
    } else if has_kw(line, "app"@) {
        if doc.metadata.app is Some {
            Err(
                mk_diag(
                    "metadata.app"@,
                    mk_span(no, col, width_of(line)),
                    "duplicate `app` statement"@,
                ),
            )
        } else {
            match quoted_spec(line.subrange(3, line.len() as int), no, col + 3) {
                QuotedOutcome::Missing(sp) => Err(
                    mk_diag("metadata.app"@, sp, "app name must be quoted"@),
                ),
                QuotedOutcome::Unterminated(sp) => Err(
                    mk_diag("metadata.app"@, sp, "unterminated quoted string"@),
                ),
                QuotedOutcome::Trailing(sp) => Err(
                    mk_diag("metadata.app"@, sp, "unexpected trailing content"@),
                ),
                QuotedOutcome::Quoted(value, sp) => Ok(
                    (
                        DocumentModel {
                            metadata: MetadataModel {
                                app: Some(SpannedModel { value, span: sp }),
                                ..doc.metadata
                            },
                            ..doc
                        },
                        stack,
                    ),
                ),
            }
        }
    } else if has_kw(line, "project"@) {
        if doc.metadata.project is Some {
            Err(
                mk_diag(
                    "metadata.project"@,
                    mk_span(no, col, width_of(line)),
                    "duplicate `project` statement"@,
                ),
            )
        } else {
            match quoted_spec(line.subrange(7, line.len() as int), no, col + 7) {
                QuotedOutcome::Missing(sp) => Err(
                    mk_diag("metadata.project"@, sp, "project name must be quoted"@),
                ),
                QuotedOutcome::Unterminated(sp) => Err(
                    mk_diag("metadata.project"@, sp, "unterminated quoted string"@),
                ),
                QuotedOutcome::Trailing(sp) => Err(
                    mk_diag("metadata.project"@, sp, "unexpected trailing content"@),
                ),
                QuotedOutcome::Quoted(value, sp) => Ok(
                    (
                        DocumentModel {
                            metadata: MetadataModel {
                                project: Some(SpannedModel { value, span: sp }),
                                ..doc.metadata
                            },
                            ..doc
                        },
                        stack,
                    ),
                ),
            }
        }
    } else if has_kw(line, "allow"@) {
        match single_token_spec(line.subrange(5, line.len() as int), no, col + 5) {
            TokenOutcome::Missing(sp) => Err(
                mk_diag("capabilities"@, sp, "missing capability name"@),
            ),
            TokenOutcome::Trailing(sp) => Err(
                mk_diag("capabilities"@, sp, "unexpected trailing content"@),
            ),
            TokenOutcome::Token(tok, sp) => Ok(
                (
                    DocumentModel {
                        capabilities: doc.capabilities.push(SpannedModel { value: tok, span: sp }),
                        ..doc
                    },
                    stack,
                ),
            ),
        }
    } else if has_kw(line, "server"@) {
        if doc.server is Some {
            Err(
                mk_diag(
                    "server"@,
                    mk_span(no, col, width_of(line)),
                    "duplicate `server` statement"@,
                ),
            )
        } else {
            let rest = line.subrange(6, line.len() as int);
            match token_prefix_spec(rest, no, col + 6) {
                TokenOutcome::Missing(sp) => Err(mk_diag("server"@, sp, "missing server verb"@)),
                TokenOutcome::Trailing(sp) => Err(mk_diag("server"@, sp, "missing server verb"@)),
                TokenOutcome::Token(verb, vsp) => {
                    if verb != "listen"@ {
                        Err(
                            mk_diag(
                                "server"@,
                                vsp,
                                "unknown server verb `"@ + verb + "`"@,
                            ),
                        )
                    } else {
                        let after = rest.subrange(
                            first_ws(rest, first_non_ws(rest, 0)),
                            rest.len() as int,
                        );
                        match single_token_spec(after, no, vsp.column + vsp.length) {
                            TokenOutcome::Missing(sp) => Err(
                                mk_diag("server.port"@, sp, "missing server listen port"@),
                            ),
                            TokenOutcome::Trailing(sp) => Err(
                                mk_diag("server.port"@, sp, "unexpected trailing content"@),
                            ),
                            TokenOutcome::Token(port_raw, psp) => match parse_u16_spec(port_raw) {
                                None => Err(
                                    mk_diag("server.port"@, psp, "invalid server port"@),
                                ),
                                Some(port) => Ok(
                                    (
                                        DocumentModel {
                                            server: Some(
                                                ServerModel {
                                                    port: SpannedModel { value: port, span: psp },
                                                    span: mk_span(no, col, width_of(line)),
                                                },
                                            ),
                                            ..doc
                                        },
                                        stack,
                                    ),
                                ),
                            },
                        }
                    }
                },
            }
        }
    } else if has_kw(line, "api"@) {
        match quoted_spec(line.subrange(3, line.len() as int), no, col + 3) {
            QuotedOutcome::Missing(sp) => Err(mk_diag("apis"@, sp, "api name must be quoted"@)),
            QuotedOutcome::Unterminated(sp) => Err(
                mk_diag("apis"@, sp, "unterminated quoted string"@),
            ),
            QuotedOutcome::Trailing(sp) => Err(
                mk_diag("apis"@, sp, "unexpected trailing content"@),
            ),
            QuotedOutcome::Quoted(name, nsp) => Ok(
                (
                    DocumentModel {
                        apis: doc.apis.push(
                            ApiModel {
                                name: SpannedModel { value: name, span: nsp },
                                routes: Seq::empty(),
                                span: mk_span(no, col, width_of(line)),
                            },
                        ),
                        ..doc
                    },
                    stack.push(Context::Api { api_index: doc.apis.len() as usize }),
                ),
            ),
        }
    } else {
        Err(
            mk_diag("root"@, mk_span(no, col, width_of(line)), msg_unknown_statement(line)),
        )
    }
}

/// One statement line inside an `api` block.
pub open spec fn api_line_spec(
    doc: DocumentModel,
    stack: Seq<Context>,
    line: Seq<char>,
    no: int,
    col: int,
    api_index: int,
) -> Result<(DocumentModel, Seq<Context>), DiagnosticModel> {
    if line == "end"@ {
        Ok((doc, stack.drop_last()))
    } else if has_kw(line, "route"@) {
        let rest = line.subrange(5, line.len() as int);
        match token_prefix_spec(rest, no, col + 5) {
            TokenOutcome::Missing(sp) => Err(
                mk_diag(spec_path_routes(api_index), sp, "missing route verb"@),
            ),
            TokenOutcome::Trailing(sp) => Err(
                mk_diag(spec_path_routes(api_index), sp, "missing route verb"@),
            ),
            TokenOutcome::Token(verb, vsp) => {
                let after = rest.subrange(
                    first_ws(rest, first_non_ws(rest, 0)),
                    rest.len() as int,
                );
                match quoted_spec(after, no, vsp.column + vsp.length) {
                    QuotedOutcome::Missing(sp) => Err(
                        mk_diag(spec_path_routes(api_index), sp, "route path must be quoted"@),
                    ),
                    QuotedOutcome::Unterminated(sp) => Err(
                        mk_diag(spec_path_routes(api_index), sp, "unterminated quoted string"@),
                    ),
                    QuotedOutcome::Trailing(sp) => Err(
                        mk_diag(spec_path_routes(api_index), sp, "unexpected trailing content"@),
                    ),
                    QuotedOutcome::Quoted(path, psp) => {
                        let api = doc.apis[api_index];
                        let route = RouteModel {
                            verb: SpannedModel { value: verb, span: vsp },
                            path: SpannedModel { value: path, span: psp },
                            response: None,
                            span: mk_span(no, col, width_of(line)),
                        };
                        Ok(
                            (
                                DocumentModel {
                                    apis: doc.apis.update(
                                        api_index,
                                        ApiModel { routes: api.routes.push(route), ..api },
                                    ),
                                    ..doc
                                },
                                stack.push(
                                    Context::Route {
                                        api_index: api_index as usize,
                                        route_index: api.routes.len() as usize,
                                    },
                                ),
                            ),
                        )
                    },
                }
            },
        }
    } else {
        Err(
            mk_diag(
                spec_path_api(api_index),
                mk_span(no, col, width_of(line)),
                msg_unknown_statement(line),
            ),
        )
    }
}

/// One statement line inside a `route` block.
pub open spec fn route_line_spec(
    doc: DocumentModel,
    stack: Seq<Context>,
    line: Seq<char>,
    no: int,
    col: int,
    api_index: int,
    route_index: int,
) -> Result<(DocumentModel, Seq<Context>), DiagnosticModel> {
    if line == "end"@ {
        Ok((doc, stack.drop_last()))
    } else if has_kw(line, "respond"@) {
        let rest = line.subrange(7, line.len() as int);
        match token_prefix_spec(rest, no, col + 7) {
            TokenOutcome::Missing(sp) => Err(
                mk_diag(
                    spec_path_route(api_index, route_index) + ".response"@,
                    sp,
                    "missing response status code"@,
                ),
            ),
            TokenOutcome::Trailing(sp) => Err(
                mk_diag(
                    spec_path_route(api_index, route_index) + ".response"@,
                    sp,
                    "missing response status code"@,
                ),
            ),
            TokenOutcome::Token(status_raw, ssp) => match parse_u16_spec(status_raw) {
                None => Err(
                    mk_diag(
                        spec_path_route(api_index, route_index) + ".response.status"@,
                        ssp,
                        "response status must be an integer"@,
                    ),
                ),
                Some(status) => {
                    let after = rest.subrange(
                        first_ws(rest, first_non_ws(rest, 0)),
                        rest.len() as int,
                    );
                    match quoted_spec(after, no, ssp.column + ssp.length) {
                        QuotedOutcome::Missing(sp) => Err(
                            mk_diag(
                                spec_path_route(api_index, route_index) + ".response.body"@,
                                sp,
                                "response body must be quoted"@,
                            ),
                        ),
                        QuotedOutcome::Unterminated(sp) => Err(
                            mk_diag(
                                spec_path_route(api_index, route_index) + ".response.body"@,
                                sp,
                                "unterminated quoted string"@,
                            ),
                        ),
                        QuotedOutcome::Trailing(sp) => Err(
                            mk_diag(
                                spec_path_route(api_index, route_index) + ".response.body"@,
                                sp,
                                "unexpected trailing content"@,
                            ),
                        ),
                        QuotedOutcome::Quoted(body, bsp) => {
                            if doc.apis[api_index].routes[route_index].response is Some {
                                Err(
                                    mk_diag(
                                        spec_path_route(api_index, route_index) + ".response"@,
                                        mk_span(no, col, width_of(line)),
                                        "duplicate `respond` statement"@,
                                    ),
                                )
                            } else {
                                let api = doc.apis[api_index];
                                let route = api.routes[route_index];
                                Ok(
                                    (
                                        DocumentModel {
                                            apis: doc.apis.update(
                                                api_index,
                                                ApiModel {
                                                    routes: api.routes.update(
                                                        route_index,
                                                        RouteModel {
                                                            response: Some(
                                                                ResponseModel {
                                                                    status: SpannedModel {
                                                                        value: status,
                                                                        span: ssp,
                                                                    },
                                                                    body: SpannedModel {
                                                                        value: body,
                                                                        span: bsp,
                                                                    },
                                                                    span: mk_span(
                                                                        no,
                                                                        col,
                                                                        width_of(line),
                                                                    ),
                                                                },
                                                            ),
                                                            ..route
                                                        },
                                                    ),
                                                    ..api
                                                },
                                            ),
                                            ..doc
                                        },
                                        stack,
                                    ),
                                )
                            }
                        },
                    }
                },
            },
        }
    } else {
        Err(
            mk_diag(
                spec_path_route(api_index, route_index),
                mk_span(no, col, width_of(line)),
                msg_unknown_statement(line),
            ),
        )
    }
}

/// One statement line, dispatched on the innermost open block.
pub open spec fn step_line_spec(
    doc: DocumentModel,
    stack: Seq<Context>,
    line: Seq<char>,
    no: int,
    col: int,
) -> Result<(DocumentModel, Seq<Context>), DiagnosticModel> {
    if stack.len() == 0 {
        top_level_spec(doc, stack, line, no, col)
    } else {
        match stack.last() {
            Context::Api { api_index } => api_line_spec(doc, stack, line, no, col, api_index as int),
            Context::Route { api_index, route_index } => route_line_spec(
                doc,
                stack,
                line,
                no,
                col,
                api_index as int,
                route_index as int,
            ),
        }
    }
}

/// One top-level statement, applied to the document.
#[verifier::rlimit(60)]
fn parse_top_level(
    document: &mut Document,
    stack: &mut Vec<Context>,
    line: &Vec<char>,
    line_no: usize,
    col: usize,
) -> (r: Result<(), Diagnostic>)
    requires
        old(stack)@.len() == 0,
        line@.len() <= MAX_SOURCE_LEN,
        1 <= col <= 0x0500_0000,
        wf_state(old(document)@, old(stack)@),
    ensures
        match top_level_spec(old(document)@, old(stack)@, line@, line_no as int, col as int) {
            Ok(ds) => r is Ok && final(document)@ == ds.0 && final(stack)@ == ds.1,
            Err(d) => (r matches Err(e) && e@ == d) && final(document)@ == old(document)@
                && final(stack)@ == old(stack)@,
        },
        wf_state(final(document)@, final(stack)@),
{
    let n = line.len();
    let w = prefix_widths(line);
    proof {
        assert(line@.take(n as int) =~= line@);
        lemma_width_of_bounds(line@);
    }
    let line_width = w[n];
    match kw_match(line, "end") {
        KwForm::Exact => {
            return Err(
                diag_str("root", Span::new(line_no, col, 3), "unexpected `end` at top level"),
            );
        },
        _ => {},
    }
    let is_dot = match kw_match(line, "dot") {
        KwForm::No => false,
        _ => true,
    };
    if is_dot {
        if document.version.is_some() {
            return Err(
                diag_str(
                    "version",
                    Span::new(line_no, col, line_width),
                    "duplicate `dot` version directive",
                ),
            );
        }
        proof {
            reveal_strlit("dot");
        }
        let rest = subvec(line, 3, n);
        match scan_single_token(&rest, line_no, col + 3) {
            TokenScan::Missing(sp) => {
                return Err(diag_str("version", sp, "missing dot version"));
            },
            TokenScan::Trailing(sp) => {
                return Err(diag_str("version", sp, "unexpected trailing content"));
            },
            TokenScan::Token(value, sp) => {
                document.version = Some(Spanned::new(value, sp));
                return Ok(());
            },
        }
    }
    let is_app = match kw_match(line, "app") {
        KwForm::No => false,
        _ => true,
    };
    if is_app {
        if document.metadata.app.is_some() {
            return Err(
                diag_str(
                    "metadata.app",
                    Span::new(line_no, col, line_width),
                    "duplicate `app` statement",
                ),
            );
        }
        proof {
            reveal_strlit("app");
        }
        let rest = subvec(line, 3, n);
        match scan_quoted(&rest, line_no, col + 3) {
            QuotedScan::Missing(sp) => {
                return Err(diag_str("metadata.app", sp, "app name must be quoted"));
            },
            QuotedScan::Unterminated(sp) => {
                return Err(diag_str("metadata.app", sp, "unterminated quoted string"));
            },
            QuotedScan::Trailing(sp) => {
                return Err(diag_str("metadata.app", sp, "unexpected trailing content"));
            },
            QuotedScan::Quoted(value, sp) => {
                document.metadata.app = Some(Spanned::new(value, sp));
                return Ok(());
            },
        }
    }
    let is_project = match kw_match(line, "project") {
        KwForm::No => false,
        _ => true,
    };
    if is_project {
        if document.metadata.project.is_some() {
            return Err(
                diag_str(
                    "metadata.project",
                    Span::new(line_no, col, line_width),
                    "duplicate `project` statement",
                ),
            );
        }
        proof {
            reveal_strlit("project");
        }
        let rest = subvec(line, 7, n);
        match scan_quoted(&rest, line_no, col + 7) {
            QuotedScan::Missing(sp) => {
                return Err(diag_str("metadata.project", sp, "project name must be quoted"));
            },
            QuotedScan::Unterminated(sp) => {
                return Err(diag_str("metadata.project", sp, "unterminated quoted string"));
            },
            QuotedScan::Trailing(sp) => {
                return Err(diag_str("metadata.project", sp, "unexpected trailing content"));
            },
            QuotedScan::Quoted(value, sp) => {
                document.metadata.project = Some(Spanned::new(value, sp));
                return Ok(());
            },
        }
    }
    let is_allow = match kw_match(line, "allow") {
        KwForm::No => false,
        _ => true,
    };
    if is_allow {
        proof {
            reveal_strlit("allow");
        }
        let rest = subvec(line, 5, n);
        match scan_single_token(&rest, line_no, col + 5) {
            TokenScan::Missing(sp) => {
                return Err(diag_str("capabilities", sp, "missing capability name"));
            },
            TokenScan::Trailing(sp) => {
                return Err(diag_str("capabilities", sp, "unexpected trailing content"));
            },
            TokenScan::Token(value, sp) => {
                let ghost vm = value@;
                document.capabilities.push(Spanned::new(value, sp));
                proof {
                    assert(document@.capabilities =~= old(document)@.capabilities.push(
                        SpannedModel { value: vm, span: sp },
                    ));
                }
                return Ok(());
            },
        }
    }
    let is_server = match kw_match(line, "server") {
        KwForm::No => false,
        _ => true,
    };
    if is_server {
        if document.server.is_some() {
            return Err(
                diag_str(
                    "server",
                    Span::new(line_no, col, line_width),
                    "duplicate `server` statement",
                ),
            );
        }
        proof {
            reveal_strlit("server");
        }
        let rest = subvec(line, 6, n);
        match scan_token_prefix(&rest, line_no, col + 6) {
            TokenScan::Missing(sp) => {
                return Err(diag_str("server", sp, "missing server verb"));
            },
            TokenScan::Trailing(sp) => {
                proof {
                    assert(false);
                }
                return Err(diag_str("server", sp, "missing server verb"));
            },
            TokenScan::Token(verb, vsp) => {
                if !crate::strutil::str_eq(verb.as_str(), "listen") {
                    let mut m = String::from_str("unknown server verb `");
                    m.append(verb.as_str());
                    m.append("`");
                    proof {
                        assert(m@ =~= "unknown server verb `"@ + verb@ + "`"@);
                    }
                    return Err(Diagnostic::new(String::from_str("server"), vsp, m));
                }
                proof {
                    assert(rest@.take(rest@.len() as int) =~= rest@);
                }
                let lead = scan_non_ws(&rest, 0, rest.len());
                let tok_end = scan_ws(&rest, lead, rest.len());
                let after = subvec(&rest, tok_end, rest.len());
                proof {
                    lemma_width_of_bounds(rest@);
                }
                match scan_single_token(&after, line_no, vsp.column + vsp.length) {
                    TokenScan::Missing(sp) => {
                        return Err(diag_str("server.port", sp, "missing server listen port"));
                    },
                    TokenScan::Trailing(sp) => {
                        return Err(diag_str("server.port", sp, "unexpected trailing content"));
                    },
                    TokenScan::Token(port_raw, psp) => {
                        let port_chars = chars_of(port_raw.as_str());
                        match parse_u16_chars(&port_chars) {
                            None => {
                                return Err(diag_str("server.port", psp, "invalid server port"));
                            },
                            Some(port) => {
                                document.server = Some(
                                    Server {
                                        port: Spanned::new(port, psp),
                                        span: Span::new(line_no, col, line_width),
                                    },
                                );
                                return Ok(());
                            },
                        }
                    },
                }
            },
        }
    }
    let is_api = match kw_match(line, "api") {
        KwForm::No => false,
        _ => true,
    };
    if is_api {
        proof {
            reveal_strlit("api");
        }
        let rest = subvec(line, 3, n);
        match scan_quoted(&rest, line_no, col + 3) {
            QuotedScan::Missing(sp) => {
                return Err(diag_str("apis", sp, "api name must be quoted"));
            },
            QuotedScan::Unterminated(sp) => {
                return Err(diag_str("apis", sp, "unterminated quoted string"));
            },
            QuotedScan::Trailing(sp) => {
                return Err(diag_str("apis", sp, "unexpected trailing content"));
            },
            QuotedScan::Quoted(name, nsp) => {
                let api_index = document.apis.len();
                let ghost namem = name@;
                document.apis.push(
                    Api {
                        name: Spanned::new(name, nsp),
                        routes: Vec::new(),
                        span: Span::new(line_no, col, line_width),
                    },
                );
                stack.push(Context::Api { api_index });
                proof {
                    assert(document@.apis[api_index as int].routes =~= Seq::<RouteModel>::empty());
                    assert(document@.apis =~= old(document)@.apis.push(
                        ApiModel {
                            name: SpannedModel { value: namem, span: nsp },
                            routes: Seq::empty(),
                            span: mk_span(line_no as int, col as int, line_width as int),
                        },
                    ));
                    assert(stack@ =~= old(stack)@.push(Context::Api { api_index }));
                }
                return Ok(());
            },
        }
    }
    let msg = build_msg_unknown_statement(line);
    Err(Diagnostic::new(String::from_str("root"), Span::new(line_no, col, line_width), msg))
}

/// One statement inside an `api` block.
#[verifier::rlimit(60)]
fn parse_api_line(
    document: &mut Document,
    stack: &mut Vec<Context>,
    line: &Vec<char>,
    line_no: usize,
    col: usize,
    api_index: usize,
) -> (r: Result<(), Diagnostic>)
    requires
        old(stack)@.len() == 1,
        old(stack)@[0] == (Context::Api { api_index }),
        line@.len() <= MAX_SOURCE_LEN,
        1 <= col <= 0x0500_0000,
        wf_state(old(document)@, old(stack)@),
    ensures
        match api_line_spec(
            old(document)@,
            old(stack)@,
            line@,
            line_no as int,
            col as int,
            api_index as int,
        ) {
            Ok(ds) => r is Ok && final(document)@ == ds.0 && final(stack)@ == ds.1,
            Err(d) => (r matches Err(e) && e@ == d) && final(document)@ == old(document)@
                && final(stack)@ == old(stack)@,
        },
        wf_state(final(document)@, final(stack)@),
{
    let n = line.len();
    let w = prefix_widths(line);
    proof {
        assert(line@.take(n as int) =~= line@);
        lemma_width_of_bounds(line@);
    }
    let line_width = w[n];
    match kw_match(line, "end") {
        KwForm::Exact => {
            stack.pop();
            proof {
                assert(stack@ =~= old(stack)@.drop_last());
            }
            return Ok(());
        },
        _ => {},
    }
    let is_route = match kw_match(line, "route") {
        KwForm::No => false,
        _ => true,
    };
    if is_route {
        proof {
            reveal_strlit("route");
        }
        let rest = subvec(line, 5, n);
        match scan_token_prefix(&rest, line_no, col + 5) {
            TokenScan::Missing(sp) => {
                return Err(diag_owned(path_routes(api_index), sp, "missing route verb"));
            },
            TokenScan::Trailing(sp) => {
                proof {
                    assert(false);
                }
                return Err(diag_owned(path_routes(api_index), sp, "missing route verb"));
            },
            TokenScan::Token(verb, vsp) => {
                proof {
                    assert(rest@.take(rest@.len() as int) =~= rest@);
                }
                let lead = scan_non_ws(&rest, 0, rest.len());
                let tok_end = scan_ws(&rest, lead, rest.len());
                let after = subvec(&rest, tok_end, rest.len());
                proof {
                    lemma_width_of_bounds(rest@);
                }
                match scan_quoted(&after, line_no, vsp.column + vsp.length) {
                    QuotedScan::Missing(sp) => {
                        return Err(
                            diag_owned(path_routes(api_index), sp, "route path must be quoted"),
                        );
                    },
                    QuotedScan::Unterminated(sp) => {
                        return Err(
                            diag_owned(path_routes(api_index), sp, "unterminated quoted string"),
                        );
                    },
                    QuotedScan::Trailing(sp) => {
                        return Err(
                            diag_owned(path_routes(api_index), sp, "unexpected trailing content"),
                        );
                    },
                    QuotedScan::Quoted(path, psp) => {
                        let ghost verbm = verb@;
                        let ghost pathm = path@;
                        let mut api = document.apis.pop().unwrap();
                        let route_index = api.routes.len();
                        api.routes.push(
                            Route {
                                verb: Spanned::new(verb, vsp),
                                path: Spanned::new(path, psp),
                                response: None,
                                span: Span::new(line_no, col, line_width),
                            },
                        );
                        document.apis.push(api);
                        stack.push(Context::Route { api_index, route_index });
                        proof {
                            let preapi = old(document)@.apis[api_index as int];
                            let routem = RouteModel {
                                verb: SpannedModel { value: verbm, span: vsp },
                                path: SpannedModel { value: pathm, span: psp },
                                response: None,
                                span: mk_span(line_no as int, col as int, line_width as int),
                            };
                            assert(document@.apis[api_index as int].routes =~= preapi.routes.push(
                                routem,
                            ));
                            assert(document@.apis[api_index as int] == ApiModel {
                                routes: preapi.routes.push(routem),
                                ..preapi
                            });
                            assert(document@.apis =~= old(document)@.apis.update(
                                api_index as int,
                                ApiModel { routes: preapi.routes.push(routem), ..preapi },
                            ));
                            assert(stack@ =~= old(stack)@.push(
                                Context::Route { api_index, route_index },
                            ));
                        }
                        return Ok(());
                    },
                }
            },
        }
    }
    let msg = build_msg_unknown_statement(line);
    Err(Diagnostic::new(path_api(api_index), Span::new(line_no, col, line_width), msg))
}

/// One statement inside a `route` block.
#[verifier::rlimit(60)]
fn parse_route_line(
    document: &mut Document,
    stack: &mut Vec<Context>,
    line: &Vec<char>,
    line_no: usize,
    col: usize,
    api_index: usize,
    route_index: usize,
) -> (r: Result<(), Diagnostic>)
    requires
        old(stack)@.len() == 2,
        old(stack)@[1] == (Context::Route { api_index, route_index }),
        line@.len() <= MAX_SOURCE_LEN,
        1 <= col <= 0x0500_0000,
        wf_state(old(document)@, old(stack)@),
    ensures
        match route_line_spec(
            old(document)@,
            old(stack)@,
            line@,
            line_no as int,
            col as int,
            api_index as int,
            route_index as int,
        ) {
            Ok(ds) => r is Ok && final(document)@ == ds.0 && final(stack)@ == ds.1,
            Err(d) => (r matches Err(e) && e@ == d) && final(document)@ == old(document)@
                && final(stack)@ == old(stack)@,
        },
        wf_state(final(document)@, final(stack)@),
{
    let n = line.len();
    let w = prefix_widths(line);
    proof {
        assert(line@.take(n as int) =~= line@);
        lemma_width_of_bounds(line@);
    }
    let line_width = w[n];
    match kw_match(line, "end") {
        KwForm::Exact => {
            stack.pop();
            proof {
                assert(stack@ =~= old(stack)@.drop_last());
            }
            return Ok(());
        },
        _ => {},
    }
    let is_respond = match kw_match(line, "respond") {
        KwForm::No => false,
        _ => true,
    };
    if is_respond {
        proof {
            reveal_strlit("respond");
        }
        let rest = subvec(line, 7, n);
        match scan_token_prefix(&rest, line_no, col + 7) {
            TokenScan::Missing(sp) => {
                let mut p = path_route(api_index, route_index);
                p.append(".response");
                proof {
                    assert(p@ =~= spec_path_route(api_index as int, route_index as int)
                        + ".response"@);
                }
                return Err(diag_owned(p, sp, "missing response status code"));
            },
            TokenScan::Trailing(sp) => {
                proof {
                    assert(false);
                }
                let mut p = path_route(api_index, route_index);
                p.append(".response");
                return Err(diag_owned(p, sp, "missing response status code"));
            },
            TokenScan::Token(status_raw, ssp) => {
                let status_chars = chars_of(status_raw.as_str());
                let status = match parse_u16_chars(&status_chars) {
                    Some(status) => status,
                    None => {
                        let mut p = path_route(api_index, route_index);
                        p.append(".response.status");
                        proof {
                            assert(p@ =~= spec_path_route(api_index as int, route_index as int)
                                + ".response.status"@);
                        }
                        return Err(diag_owned(p, ssp, "response status must be an integer"));
                    },
                };
                proof {
                    assert(rest@.take(rest@.len() as int) =~= rest@);
                }
                let lead = scan_non_ws(&rest, 0, rest.len());
                let tok_end = scan_ws(&rest, lead, rest.len());
                let after = subvec(&rest, tok_end, rest.len());
                proof {
                    lemma_width_of_bounds(rest@);
                }
                match scan_quoted(&after, line_no, ssp.column + ssp.length) {
                    QuotedScan::Missing(sp) => {
                        let mut p = path_route(api_index, route_index);
                        p.append(".response.body");
                        proof {
                            assert(p@ =~= spec_path_route(api_index as int, route_index as int)
                                + ".response.body"@);
                        }
                        return Err(diag_owned(p, sp, "response body must be quoted"));
                    },
                    QuotedScan::Unterminated(sp) => {
                        let mut p = path_route(api_index, route_index);
                        p.append(".response.body");
                        proof {
                            assert(p@ =~= spec_path_route(api_index as int, route_index as int)
                                + ".response.body"@);
                        }
                        return Err(diag_owned(p, sp, "unterminated quoted string"));
                    },
                    QuotedScan::Trailing(sp) => {
                        let mut p = path_route(api_index, route_index);
                        p.append(".response.body");
                        proof {
                            assert(p@ =~= spec_path_route(api_index as int, route_index as int)
                                + ".response.body"@);
                        }
                        return Err(diag_owned(p, sp, "unexpected trailing content"));
                    },
                    QuotedScan::Quoted(body, bsp) => {
                        if document.apis[api_index].routes[route_index].response.is_some() {
                            let mut p = path_route(api_index, route_index);
                            p.append(".response");
                            proof {
                                assert(p@ =~= spec_path_route(
                                    api_index as int,
                                    route_index as int,
                                ) + ".response"@);
                            }
                            return Err(
                                diag_owned(
                                    p,
                                    Span::new(line_no, col, line_width),
                                    "duplicate `respond` statement",
                                ),
                            );
                        }
                        let ghost bodym = body@;
                        let mut api = document.apis.pop().unwrap();
                        let mut route = api.routes.pop().unwrap();
                        route.response = Some(
                            Response {
                                status: Spanned::new(status, ssp),
                                body: Spanned::new(body, bsp),
                                span: Span::new(line_no, col, line_width),
                            },
                        );
                        api.routes.push(route);
                        document.apis.push(api);
                        proof {
                            let preapi = old(document)@.apis[api_index as int];
                            let preroute = preapi.routes[route_index as int];
                            let routem = RouteModel {
                                response: Some(
                                    ResponseModel {
                                        status: SpannedModel { value: status, span: ssp },
                                        body: SpannedModel { value: bodym, span: bsp },
                                        span: mk_span(line_no as int, col as int, line_width as int),
                                    },
                                ),
                                ..preroute
                            };
                            assert(document@.apis[api_index as int].routes =~= preapi.routes.update(
                                route_index as int,
                                routem,
                            ));
                            assert(document@.apis[api_index as int] == ApiModel {
                                routes: preapi.routes.update(route_index as int, routem),
                                ..preapi
                            });
                            assert(document@.apis =~= old(document)@.apis.update(
                                api_index as int,
                                ApiModel {
                                    routes: preapi.routes.update(route_index as int, routem),
                                    ..preapi
                                },
                            ));
                        }
                        return Ok(());
                    },
                }
            },
        }
    }
    let msg = build_msg_unknown_statement(line);
    Err(
        Diagnostic::new(
            path_route(api_index, route_index),
            Span::new(line_no, col, line_width),
            msg,
        ),
    )
}

/// Shape of the parser state: at most an api frame and a route frame, their
/// indices naming the last api and its last route.
pub open spec fn wf_state(doc: DocumentModel, stack: Seq<Context>) -> bool {
    &&& stack.len() <= 2
    &&& (stack.len() >= 1 ==> (stack[0] matches Context::Api { api_index } && api_index + 1
        == doc.apis.len()))
    &&& (stack.len() == 2 ==> (stack[1] matches Context::Route { api_index, route_index } && {
        &&& api_index + 1 == doc.apis.len()
        &&& route_index + 1 == doc.apis[api_index as int].routes.len()
    }))
}

// ---------------------------------------------------------------------------
// The whole parse
// ---------------------------------------------------------------------------
/// The parser state after the first `k` lines: the document and context
/// stack built so far, or the first diagnostic (the parser fails fast).
pub open spec fn parse_fold(lines: Seq<Seq<char>>, k: int) -> Result<
    (DocumentModel, Seq<Context>),
    DiagnosticModel,
>
    decreases k,
{
    if k <= 0 {
        Ok((empty_document_model(), Seq::empty()))
    } else {
        match parse_fold(lines, k - 1) {
            Err(d) => Err(d),
            Ok(ds) => {
                let raw = lines[k - 1];
                let b = first_non_ws(raw, 0);
                if b == raw.len() {
                    Ok(ds)
                } else {
                    let trimmed = raw.subrange(b, trim_end_idx(raw));
                    if trimmed[0] == '#' {
                        Ok(ds)
                    } else {
                        step_line_spec(ds.0, ds.1, trimmed, k, width_of(raw.take(b)) + 1)
                    }
                }
            },
        }
    }
}

/// The diagnostic for a block left open at end of input.
pub open spec fn unclosed_diag(stack: Seq<Context>, nlines: int) -> DiagnosticModel {
    let path = match stack.last() {
        Context::Api { api_index } => spec_path_api(api_index as int),
        Context::Route { api_index, route_index } => spec_path_route(
            api_index as int,
            route_index as int,
        ),
    };
    mk_diag(path, mk_span(nlines + 1, 1, 1), "unclosed block; expected `end`"@)
}

/// What parsing a source text yields: the document, or the one diagnostic.
pub open spec fn parse_result_spec(src: Seq<char>) -> Result<DocumentModel, DiagnosticModel> {
    let lines = spec_lines(src);
    match parse_fold(lines, lines.len() as int) {
        Err(d) => Err(d),
        Ok(ds) => if ds.1.len() == 0 {
            Ok(ds.0)
        } else {
            Err(unclosed_diag(ds.1, lines.len() as int))
        },
    }
}

/// Parses a dotDSL source text: the spanned document, or a single diagnostic
/// wrapped with the source path. Fails fast on the first offending line; an
/// unclosed block is reported one line past the end.
#[verifier::rlimit(60)]
pub fn parse(source: &str, source_path: &str) -> (r: Result<Document, LoadError>)
    requires
        source@.len() <= MAX_SOURCE_LEN,
    ensures
        match r {
            Ok(doc) => parse_result_spec(source@) matches Ok(dm) && doc@ == dm,
            Err(e) => e matches LoadError::Diagnostics { path, diagnostics } && path@
                == source_path@ && (parse_result_spec(source@) matches Err(dm)
                && diagnostics.deep_view() == seq![dm]),
        },
{
    let chars = chars_of(source);
    let lines = split_lines(&chars);
    let mut document = Document::default();
    let mut stack: Vec<Context> = Vec::new();
    let nlines = lines.len();
    let ghost linesm = lines.deep_view();
    let mut k: usize = 0;
    proof {
        assert(stack@ =~= Seq::<Context>::empty());
    }
    while k < nlines
        invariant
            nlines == linesm.len(),
            linesm == lines.deep_view(),
            linesm == spec_lines(source@),
            source@.len() <= MAX_SOURCE_LEN,
            forall|i: int| 0 <= i < linesm.len() ==> (#[trigger] linesm[i]).len() <= source@.len(),
            nlines <= source@.len(),
            k <= nlines,
            parse_fold(linesm, k as int) == Ok::<(DocumentModel, Seq<Context>), DiagnosticModel>(
                (document@, stack@),
            ),
            wf_state(document@, stack@),
        decreases nlines - k,
    {
        let raw = &lines[k];
        proof {
            assert(raw.deep_view() =~= raw@);
            assert(raw@ == linesm[k as int]);
            assert(raw@.take(raw@.len() as int) =~= raw@);
        }
        let b = scan_non_ws(raw, 0, raw.len());
        if b == raw.len() {
            proof {
                assert(parse_fold(linesm, k + 1) == Ok::<
                    (DocumentModel, Seq<Context>),
                    DiagnosticModel,
                >((document@, stack@)));
            }
            k = k + 1;
            continue ;
        }
        let t = scan_trim_end(raw);
        proof {
            lemma_trim_end_bounds(raw@);
            lemma_first_non_ws_bounds(raw@, 0);
            if t <= b {
                assert(is_ws(raw@[b as int]));
            }
        }
        let trimmed = subvec(raw, b, t);
        if trimmed[0] == '#' {
            proof {
                assert(parse_fold(linesm, k + 1) == Ok::<
                    (DocumentModel, Seq<Context>),
                    DiagnosticModel,
                >((document@, stack@)));
            }
            k = k + 1;
            continue ;
        }
        let wpre = prefix_widths(raw);
        proof {
            lemma_width_of_bounds(raw@.take(b as int));
        }
        let col = wpre[b] + 1;
        let last: Option<Context> = if stack.len() == 0 {
            None
        } else {
            Some(stack[stack.len() - 1])
        };
        let ghost predoc = document@;
        let ghost prestack = stack@;
        let step = match last {
            None => parse_top_level(&mut document, &mut stack, &trimmed, k + 1, col),
            Some(Context::Api { api_index }) => {
                proof {
                    if stack@.len() == 2 {
                        assert(stack@[1] is Route);
                    }
                }
                parse_api_line(&mut document, &mut stack, &trimmed, k + 1, col, api_index)
            },
            Some(Context::Route { api_index, route_index }) => {
                proof {
                    if stack@.len() == 1 {
                        assert(stack@[0] is Api);
                    }
                }
                parse_route_line(
                    &mut document,
                    &mut stack,
                    &trimmed,
                    k + 1,
                    col,
                    api_index,
                    route_index,
                )
            },
        };
        match step {
            Ok(()) => {
                proof {
                    assert(step_line_spec(predoc, prestack, trimmed@, k + 1, col as int)
                        == Ok::<(DocumentModel, Seq<Context>), DiagnosticModel>(
                        (document@, stack@),
                    ));
                    assert(parse_fold(linesm, k + 1) == Ok::<
                        (DocumentModel, Seq<Context>),
                        DiagnosticModel,
                    >((document@, stack@)));
                }
                k = k + 1;
            },
            Err(d) => {
                let ghost dm = d@;
                proof {
                    assert(parse_fold(linesm, k + 1) == Err::<
                        (DocumentModel, Seq<Context>),
                        DiagnosticModel,
                    >(dm));
                    lemma_parse_fold_err_stable(linesm, k + 1, linesm.len() as int);
                }
                let mut ds: Vec<Diagnostic> = Vec::new();
                ds.push(d);
                proof {
                    assert(ds.deep_view() =~= seq![dm]);
                }
                return Err(LoadError::diagnostics(String::from_str(source_path), ds));
            },
        }
    }
    if stack.len() == 0 {
        return Ok(document);
    }
    let last = stack[stack.len() - 1];
    let path = match last {
        Context::Api { api_index } => path_api(api_index),
        Context::Route { api_index, route_index } => path_route(api_index, route_index),
    };
    let d = diag_owned(path, Span::new(nlines + 1, 1, 1), "unclosed block; expected `end`");
    let ghost dm = d@;
    let mut ds: Vec<Diagnostic> = Vec::new();
    ds.push(d);
    proof {
        assert(ds.deep_view() =~= seq![dm]);
    }
    Err(LoadError::diagnostics(String::from_str(source_path), ds))
}

/// Once the fold fails, it stays failed with the same diagnostic.
proof fn lemma_parse_fold_err_stable(lines: Seq<Seq<char>>, k: int, m: int)
    requires
        0 <= k <= m,
        parse_fold(lines, k) is Err,
    ensures
        parse_fold(lines, m) == parse_fold(lines, k),
    decreases m - k,
{
    if k < m {
        lemma_parse_fold_err_stable(lines, k, m - 1);
    }
}

} // verus!
