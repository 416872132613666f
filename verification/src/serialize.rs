//! Re-serialising a spanned document tree to dotDSL source.
//!
//! Every spanned node is written back at its recorded line and column, so a
//! document that came out of the parser re-parses with byte-identical spans
//! wherever the original source used canonical spacing and escapes. `end`
//! lines carry no span of their own: they are placed on the first blank line
//! after their block.

use vstd::prelude::*;
use vstd::string::StringExecFns;

use crate::model::Document;
use crate::parser::unescape_spec;
use crate::strutil::{dec_digits, push_char, string_from_chars, usize_to_string};

verus! {

/// Columns and lines are clamped into this range before any placement, so
/// the writer is total on every tree.
pub const MAX_GRID: usize = 0x0100_0000;

fn clamp_pos(v: usize) -> (r: usize)
    ensures
        1 <= r <= MAX_GRID,
{
    if v < 1 {
        1
    } else if v > MAX_GRID {
        MAX_GRID
    } else {
        v
    }
}

/// A row with `text` written at 1-based byte column `col`: the row is
/// extended with spaces as needed, bytes under the text are overwritten,
/// everything else keeps its character.
pub open spec fn place_row(row: Seq<char>, col: int, text: Seq<char>) -> Seq<char> {
    let end = if row.len() >= col - 1 + text.len() {
        row.len() as int
    } else {
        col - 1 + text.len()
    };
    Seq::new(
        end as nat,
        |i: int|
            if col - 1 <= i < col - 1 + text.len() {
                text[i - (col - 1)]
            } else if i < row.len() {
                row[i]
            } else {
                ' '
            },
    )
}

/// The grid after writing at `(line, col)`: rows up to `line` exist (new
/// ones empty), row `line` carries the placed text, every other row is
/// unchanged.
pub open spec fn grid_after_write(
    grid: Seq<Seq<char>>,
    line: int,
    col: int,
    text: Seq<char>,
) -> Seq<Seq<char>> {
    let len = if grid.len() >= line {
        grid.len() as int
    } else {
        line
    };
    Seq::new(
        len as nat,
        |j: int|
            if j == line - 1 {
                place_row(if j < grid.len() { grid[j] } else { Seq::empty() }, col, text)
            } else if j < grid.len() {
                grid[j]
            } else {
                Seq::empty()
            },
    )
}

/// Writes `text` into the grid at 1-based `(line, col)`, extending rows and
/// padding with spaces as needed; the result is exactly `grid_after_write`.
fn write_at(lines: &mut Vec<Vec<char>>, line: usize, col: usize, text: &Vec<char>)
    requires
        1 <= line <= MAX_GRID,
        1 <= col <= MAX_GRID,
        text@.len() <= MAX_GRID,
        old(lines)@.len() <= MAX_GRID,
    ensures
        old(lines)@.len() <= final(lines)@.len() <= MAX_GRID,
        final(lines).deep_view() == grid_after_write(
            old(lines).deep_view(),
            line as int,
            col as int,
            text@,
        ),
{
    let ghost g0 = lines.deep_view();
    while lines.len() < line
        invariant
            1 <= line <= MAX_GRID,
            old(lines)@.len() <= lines@.len(),
            lines@.len() <= MAX_GRID,
            g0 == old(lines).deep_view(),
            g0.len() == old(lines)@.len(),
            lines@.len() >= g0.len() as usize,
            lines@.len() == g0.len() || lines@.len() <= line,
            forall|j: int| 0 <= j < g0.len() ==> lines.deep_view()[j] == g0[j],
            forall|j: int|
                g0.len() <= j < lines@.len() ==> lines.deep_view()[j] == Seq::<char>::empty(),
        decreases line - lines@.len(),
    {
        let ghost pre = lines.deep_view();
        let empty_row: Vec<char> = Vec::new();
        proof {
            assert(empty_row.deep_view() =~= Seq::<char>::empty());
        }
        lines.push(empty_row);
        proof {
            assert(lines.deep_view() =~= pre.push(Seq::<char>::empty()));
        }
    }
    let ghost grown = lines.deep_view();
    let mut row = lines.remove(line - 1);
    proof {
        assert(lines.deep_view() =~= grown.remove(line - 1));
    }
    let ghost orig = row@;
    proof {
        assert(orig == grown[line - 1]);
    }
    while row.len() < col - 1
        invariant
            1 <= col <= MAX_GRID,
            row@.len() >= orig.len(),
            row@.len() == orig.len() || row@.len() <= col - 1,
            forall|k: int| 0 <= k < orig.len() ==> row@[k] == orig[k],
            forall|k: int| orig.len() <= k < row@.len() ==> row@[k] == ' ',
        decreases col - 1 - row@.len(),
    {
        row.push(' ');
    }
    let mut i: usize = 0;
    while i < text.len()
        invariant
            i <= text@.len(),
            text@.len() <= MAX_GRID,
            1 <= col <= MAX_GRID,
            row@.len() >= orig.len(),
            row@.len() >= col - 1 + i,
            row@.len() == (if orig.len() >= col - 1 + i {
                orig.len() as int
            } else {
                col - 1 + i
            }),
            forall|k: int|
                0 <= k < row@.len() ==> row@[k] == (if col - 1 <= k < col - 1 + i {
                    text@[k - (col - 1)]
                } else if k < orig.len() {
                    orig[k]
                } else {
                    ' '
                }),
        decreases text@.len() - i,
    {
        let pos = col - 1 + i;
        if pos < row.len() {
            row[pos] = text[i];
        } else {
            proof {
                assert(row@.len() == pos);
            }
            row.push(text[i]);
        }
        i = i + 1;
    }
    proof {
        assert(row@ =~= place_row(orig, col as int, text@));
        assert(row.deep_view() =~= row@);
    }
    let ghost placed = row@;
    lines.insert(line - 1, row);
    proof {
        assert(lines.deep_view() =~= grown.remove(line - 1).insert(line - 1, placed));
        assert(lines.deep_view() =~= grown.update(line - 1, placed));
        let target = grid_after_write(g0, line as int, col as int, text@);
        assert(grown.len() == target.len());
        assert forall|j: int| 0 <= j < target.len() implies grown.update(line - 1, placed)[j]
            == target[j] by {
            if j != line - 1 {
                if j < g0.len() {
                    assert(grown[j] == g0[j]);
                } else {
                    assert(grown[j] == Seq::<char>::empty());
                }
            }
        }
        assert(lines.deep_view() =~= target);
    }
}

fn chars_of_str(s: &str) -> (v: Vec<char>)
    ensures
        v@ == s@,
{
    crate::strutil::chars_of(s)
}

/// The canonical escape form of one character inside a quoted literal.
pub open spec fn quote_escape_char(c: char) -> Seq<char> {
    if c == '"' {
        seq!['\\', '"']
    } else if c == '\\' {
        seq!['\\', '\\']
    } else if c == '\n' {
        seq!['\\', 'n']
    } else if c == '\t' {
        seq!['\\', 't']
    } else {
        seq![c]
    }
}

/// A string value re-escaped with the canonical escapes.
pub open spec fn quote_escaped(s: Seq<char>) -> Seq<char>
    decreases s.len(),
{
    if s.len() == 0 {
        Seq::empty()
    } else {
        quote_escape_char(s[0]) + quote_escaped(s.drop_first())
    }
}

proof fn lemma_quote_escaped_push(s: Seq<char>, c: char)
    ensures
        quote_escaped(s.push(c)) == quote_escaped(s) + quote_escape_char(c),
    decreases s.len(),
{
    if s.len() == 0 {
        assert(s.push(c)[0] == c);
        assert(s.push(c).drop_first() =~= Seq::<char>::empty());
        assert(quote_escaped(Seq::<char>::empty()) =~= Seq::<char>::empty());
        assert(quote_escape_char(c) + Seq::<char>::empty() =~= quote_escape_char(c));
        assert(quote_escaped(s.push(c)) =~= quote_escape_char(c));
        assert(quote_escaped(s) + quote_escape_char(c) =~= quote_escape_char(c));
    } else {
        assert(s.push(c)[0] == s[0]);
        assert(s.push(c).drop_first() =~= s.drop_first().push(c));
        lemma_quote_escaped_push(s.drop_first(), c);
        assert(quote_escape_char(s[0]) + (quote_escaped(s.drop_first()) + quote_escape_char(c))
            =~= (quote_escape_char(s[0]) + quote_escaped(s.drop_first())) + quote_escape_char(c));
    }
}

/// Re-escaping round-trips: the parser's unescaping maps the canonical
/// escape form of any value back to the value itself.
pub proof fn lemma_unescape_of_quote_escaped(s: Seq<char>)
    ensures
        unescape_spec(quote_escaped(s)) == s,
    decreases s.len(),
{
    if s.len() == 0 {
        assert(quote_escaped(s) =~= Seq::<char>::empty());
        assert(unescape_spec(Seq::<char>::empty()) =~= Seq::<char>::empty());
        assert(s =~= Seq::<char>::empty());
    } else {
        let c = s[0];
        let piece = quote_escape_char(c);
        let rest = quote_escaped(s.drop_first());
        let whole = quote_escaped(s);
        lemma_unescape_of_quote_escaped(s.drop_first());
        assert(whole == piece + rest);
        assert(whole.len() == piece.len() + rest.len());
        assert(whole[0] == piece[0]);
        if piece.len() == 2 {
            assert(whole[1] == piece[1]);
            assert(whole.subrange(2, whole.len() as int) =~= rest);
            assert(unescape_spec(whole) == (if c == '"' {
                seq!['"']
            } else if c == '\\' {
                seq!['\\']
            } else if c == '\n' {
                seq!['\n']
            } else {
                seq!['\t']
            }) + unescape_spec(rest));
            assert(unescape_spec(whole) =~= s);
        } else {
            assert(piece =~= seq![c]);
            assert(c != '\\');
            assert(whole.subrange(1, whole.len() as int) =~= rest);
            assert(unescape_spec(whole) == seq![c] + unescape_spec(rest));
            assert(unescape_spec(whole) =~= s);
        }
    }
}

/// Re-escapes a string value as a quoted literal: `"`, `\`, newline and tab
/// take their escape forms, so re-parsing recovers the value exactly
/// (`lemma_unescape_of_quote_escaped`).
fn quote_value(value: &str) -> (out: Vec<char>)
    ensures
        out@ == seq!['"'] + quote_escaped(value@) + seq!['"'],
{
    let chars = crate::strutil::chars_of(value);
    let mut out: Vec<char> = Vec::new();
    out.push('"');
    let mut i: usize = 0;
    proof {
        assert(chars@.take(0) =~= Seq::<char>::empty());
        assert(out@ =~= seq!['"'] + quote_escaped(chars@.take(0)));
    }
    while i < chars.len()
        invariant
            i <= chars@.len(),
            chars@ == value@,
            out@ == seq!['"'] + quote_escaped(chars@.take(i as int)),
        decreases chars@.len() - i,
    {
        let ghost pre = out@;
        let c = chars[i];
        if c == '"' {
            out.push('\\');
            out.push('"');
        } else if c == '\\' {
            out.push('\\');
            out.push('\\');
        } else if c == '\n' {
            out.push('\\');
            out.push('n');
        } else if c == '\t' {
            out.push('\\');
            out.push('t');
        } else {
            out.push(c);
        }
        proof {
            assert(out@ =~= pre + quote_escape_char(chars@[i as int]));
            assert(chars@.take(i + 1) =~= chars@.take(i as int).push(chars@[i as int]));
            lemma_quote_escaped_push(chars@.take(i as int), chars@[i as int]);
            assert(out@ =~= seq!['"'] + quote_escaped(chars@.take(i + 1)));
        }
        i = i + 1;
    }
    out.push('"');
    proof {
        assert(chars@.take(chars@.len() as int) =~= chars@);
        assert(out@ =~= seq!['"'] + quote_escaped(value@) + seq!['"']);
    }
    out
}

fn digits_of(n: usize) -> (v: Vec<char>)
    ensures
        v@ == dec_digits(n as nat),
{
    let s = usize_to_string(n);
    crate::strutil::chars_of(s.as_str())
}

/// The column a keyword is written at so that its argument token lands at
/// `token_col`: directly before it with one separating byte when there is
/// room, else column one.
pub open spec fn keyword_col(token_col: int, width: int) -> int {
    if token_col > width + 1 && token_col - width - 1 <= MAX_GRID {
        token_col - width - 1
    } else {
        1
    }
}

/// Writes a keyword so that its argument token lands at `token_col`.
fn write_keyword_before(
    lines: &mut Vec<Vec<char>>,
    line: usize,
    token_col: usize,
    keyword: &str,
)
    requires
        1 <= line <= MAX_GRID,
        1 <= token_col <= MAX_GRID,
        old(lines)@.len() <= MAX_GRID,
    ensures
        old(lines)@.len() <= final(lines)@.len() <= MAX_GRID,
        keyword@.len() <= MAX_GRID ==> final(lines).deep_view() == grid_after_write(
            old(lines).deep_view(),
            line as int,
            keyword_col(token_col as int, keyword@.len() as int),
            keyword@,
        ),
        keyword@.len() > MAX_GRID ==> final(lines).deep_view() == old(lines).deep_view(),
{
    let kw = chars_of_str(keyword);
    if kw.len() > MAX_GRID {
        return ;
    }
    let width = kw.len();
    let col = if token_col > width + 1 && token_col - width - 1 <= MAX_GRID {
        token_col - width - 1
    } else {
        1
    };
    write_at(lines, line, col, &kw);
}

/// The first line at or after `from` (clamped into the grid range) whose
/// row is empty in the grid so far; one past the last row when none is.
fn first_blank_line(lines: &Vec<Vec<char>>, from: usize) -> (r: usize)
    requires
        1 <= from,
        lines@.len() <= MAX_GRID,
    ensures
        1 <= r <= MAX_GRID + 1,
        (if from > MAX_GRID {
            MAX_GRID as int
        } else {
            from as int
        }) <= r,
        r <= lines@.len() ==> lines.deep_view()[r - 1].len() == 0,
        forall|j: int|
            (if from > MAX_GRID {
                MAX_GRID as int
            } else {
                from as int
            }) <= j < r ==> j <= lines@.len() && #[trigger] lines.deep_view()[j - 1].len() > 0,
{
    let ghost f = if from > MAX_GRID {
        MAX_GRID as int
    } else {
        from as int
    };
    let mut line = from;
    if line > MAX_GRID {
        line = MAX_GRID;
    }
    while line <= lines.len() && lines[line - 1].len() > 0
        invariant
            1 <= line,
            f <= line <= MAX_GRID + 1,
            lines@.len() <= MAX_GRID,
            line == f || line <= lines@.len() + 1,
            forall|j: int|
                f <= j < line ==> #[trigger] lines.deep_view()[j - 1].len() > 0,
        decreases lines@.len() + 1 - line,
    {
        proof {
            assert(lines.deep_view()[line - 1] =~= lines@[line - 1]@);
        }
        line = line + 1;
    }
    proof {
        if line <= lines@.len() {
            assert(lines.deep_view()[line - 1] =~= lines@[line - 1]@);
        }
        assert forall|j: int| f <= j < line implies j <= lines@.len()
            && #[trigger] lines.deep_view()[j - 1].len() > 0 by {
            assert(line <= lines@.len() + 1);
        }
    }
    line
}

/// Renders a spanned document back to dotDSL source text, one statement per
/// recorded line, block `end`s on the first blank line after their block.
pub fn document_to_source(document: &Document) -> String {
    let mut lines: Vec<Vec<char>> = Vec::new();

    if let Some(version) = &document.version {
        let line = clamp_pos(version.span.line);
        let col = clamp_pos(version.span.column);
        write_keyword_before(&mut lines, line, col, "dot");
        let text = chars_of_str(version.value.as_str());
        if text.len() <= MAX_GRID {
            write_at(&mut lines, line, col, &text);
        }
    }
    if let Some(app) = &document.metadata.app {
        let line = clamp_pos(app.span.line);
        let col = clamp_pos(app.span.column);
        write_keyword_before(&mut lines, line, col, "app");
        let text = quote_value(app.value.as_str());
        if text.len() <= MAX_GRID {
            write_at(&mut lines, line, col, &text);
        }
    }
    if let Some(project) = &document.metadata.project {
        let line = clamp_pos(project.span.line);
        let col = clamp_pos(project.span.column);
        write_keyword_before(&mut lines, line, col, "project");
        let text = quote_value(project.value.as_str());
        if text.len() <= MAX_GRID {
            write_at(&mut lines, line, col, &text);
        }
    }
    let mut c: usize = 0;
    while c < document.capabilities.len()
        invariant
            lines@.len() <= MAX_GRID,
        decreases document.capabilities@.len() - c,
    {
        let cap = &document.capabilities[c];
        let line = clamp_pos(cap.span.line);
        let col = clamp_pos(cap.span.column);
        write_keyword_before(&mut lines, line, col, "allow");
        let text = chars_of_str(cap.value.as_str());
        if text.len() <= MAX_GRID {
            write_at(&mut lines, line, col, &text);
        }
        c = c + 1;
    }
    if let Some(server) = &document.server {
        let line = clamp_pos(server.span.line);
        let col = clamp_pos(server.span.column);
        let kw = chars_of_str("server listen");
        if kw.len() <= MAX_GRID {
            write_at(&mut lines, line, col, &kw);
        }
        let pcol = clamp_pos(server.port.span.column);
        let text = digits_of(server.port.value as usize);
        if text.len() <= MAX_GRID {
            write_at(&mut lines, line, pcol, &text);
        }
    }
    let mut a: usize = 0;
    while a < document.apis.len()
        invariant
            lines@.len() <= MAX_GRID,
        decreases document.apis@.len() - a,
    {
        let api = &document.apis[a];
        let aline = clamp_pos(api.span.line);
        let acol = clamp_pos(api.span.column);
        let kw = chars_of_str("api");
        if kw.len() <= MAX_GRID {
            write_at(&mut lines, aline, acol, &kw);
        }
        let ncol = clamp_pos(api.name.span.column);
        let text = quote_value(api.name.value.as_str());
        if text.len() <= MAX_GRID {
            write_at(&mut lines, aline, ncol, &text);
        }

        let mut block_end = aline;
        let mut r: usize = 0;
        while r < document.apis[a].routes.len()
            invariant
                a < document.apis@.len(),
                lines@.len() <= MAX_GRID,
                block_end >= 1,
            decreases document.apis@[a as int].routes@.len() - r,
        {
            let route = &document.apis[a].routes[r];
            let rline = clamp_pos(route.span.line);
            let rcol = clamp_pos(route.span.column);
            let kw = chars_of_str("route");
            if kw.len() <= MAX_GRID {
                write_at(&mut lines, rline, rcol, &kw);
            }
            let vcol = clamp_pos(route.verb.span.column);
            let verb = chars_of_str(route.verb.value.as_str());
            if verb.len() <= MAX_GRID {
                write_at(&mut lines, rline, vcol, &verb);
            }
            let pcol = clamp_pos(route.path.span.column);
            let path = quote_value(route.path.value.as_str());
            if path.len() <= MAX_GRID {
                write_at(&mut lines, rline, pcol, &path);
            }

            let mut route_end = rline;
            if let Some(response) = &route.response {
                let sline = clamp_pos(response.span.line);
                let scol = clamp_pos(response.span.column);
                let kw = chars_of_str("respond");
                if kw.len() <= MAX_GRID {
                    write_at(&mut lines, sline, scol, &kw);
                }
                let stcol = clamp_pos(response.status.span.column);
                let digits = digits_of(response.status.value as usize);
                if digits.len() <= MAX_GRID {
                    write_at(&mut lines, sline, stcol, &digits);
                }
                let bcol = clamp_pos(response.body.span.column);
                let body = quote_value(response.body.value.as_str());
                if body.len() <= MAX_GRID {
                    write_at(&mut lines, sline, bcol, &body);
                }
                if sline > route_end {
                    route_end = sline;
                }
            }
            let end_line = first_blank_line(&lines, if route_end < MAX_GRID { route_end + 1 } else { MAX_GRID });
            if end_line <= MAX_GRID {
                let kw = chars_of_str("end");
                if kw.len() <= MAX_GRID {
                    write_at(&mut lines, end_line, rcol, &kw);
                }
                if end_line > block_end {
                    block_end = end_line;
                }
            }
            if rline > block_end {
                block_end = rline;
            }
            r = r + 1;
        }
        let end_line = first_blank_line(&lines, if block_end < MAX_GRID { block_end + 1 } else { MAX_GRID });
        if end_line <= MAX_GRID {
            let kw = chars_of_str("end");
            if kw.len() <= MAX_GRID {
                write_at(&mut lines, end_line, acol, &kw);
            }
        }
        a = a + 1;
    }

    let mut out = String::new();
    let mut i: usize = 0;
    while i < lines.len()
        decreases lines@.len() - i,
    {
        let row = string_from_chars(&lines[i]);
        out.append(row.as_str());
        push_char(&mut out, '\n');
        i = i + 1;
    }
    out
}

} // verus!
