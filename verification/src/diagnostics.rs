//! Source spans, diagnostics, and the load-error surface.

use vstd::prelude::*;
use vstd::string::StringExecFns;

use crate::strutil::{dec_digits, usize_to_string};

verus! {

/// Source span in 1-based coordinates.
///
/// `column` and `length` are measured in UTF-8 bytes on the original line.
#[derive(Clone, Copy, Debug, PartialEq, Eq, Structural)]
pub struct Span {
    pub line: usize,
    pub column: usize,
    pub length: usize,
}

impl Span {
    pub fn new(line: usize, column: usize, length: usize) -> (s: Span)
        ensures
            s == (Span { line, column, length }),
    {
        Span { line, column, length }
    }
}

/// Validation or parse diagnostic with a stable semantic path.
#[derive(Clone, Debug)]
pub struct Diagnostic {
    pub semantic_path: String,
    pub span: Span,
    pub message: String,
}

/// Mathematical model of a diagnostic: path and message as character
/// sequences, the span as-is.
pub struct DiagnosticModel {
    pub semantic_path: Seq<char>,
    pub span: Span,
    pub message: Seq<char>,
}

impl View for Diagnostic {
    type V = DiagnosticModel;

    open spec fn view(&self) -> DiagnosticModel {
        DiagnosticModel {
            semantic_path: self.semantic_path@,
            span: self.span,
            message: self.message@,
        }
    }
}

impl DeepView for Diagnostic {
    type V = DiagnosticModel;

    open spec fn deep_view(&self) -> DiagnosticModel {
        self.view()
    }
}

impl Diagnostic {
    pub fn new(semantic_path: String, span: Span, message: String) -> (d: Diagnostic)
        ensures
            d@.semantic_path == semantic_path@,
            d@.span == span,
            d@.message == message@,
    {
        Diagnostic { semantic_path, span, message }
    }
}

/// Failure to load a document: an I/O failure carrying the offending path, or
/// a list of diagnostics against the source.
#[derive(Debug)]
pub enum LoadError {
    Io { path: String, message: String },
    Diagnostics { path: String, diagnostics: Vec<Diagnostic> },
}

impl LoadError {
    /// Wraps a list of diagnostics for the given source path.
    pub fn diagnostics(path: String, diagnostics: Vec<Diagnostic>) -> (e: LoadError)
        ensures
            e == (LoadError::Diagnostics { path, diagnostics }),
    {
        LoadError::Diagnostics { path, diagnostics }
    }

    /// Returns the diagnostics when this error carries some, `None` for I/O.
    pub fn as_diagnostics(&self) -> (r: Option<&Vec<Diagnostic>>)
        ensures
            match *self {
                LoadError::Diagnostics { .. } => r matches Some(d)
                    && *d == self->Diagnostics_diagnostics,
                LoadError::Io { .. } => r is None,
            },
    {
        match self {
            LoadError::Diagnostics { diagnostics, .. } => Some(diagnostics),
            LoadError::Io { .. } => None,
        }
    }

    /// Renders the error: one `<path>:<line>:<column>:<length> <semantic_path>
    /// | <message>` line per diagnostic, joined by newlines; an I/O error
    /// names the path it failed on.
    pub fn display_string(&self) -> (r: String)
        ensures
            match *self {
                LoadError::Io { .. } => r@ == "failed to read "@ + self->Io_path@ + ": "@
                    + self->Io_message@,
                LoadError::Diagnostics { .. } => r@ == diags_display(
                    self->Diagnostics_path@,
                    self->Diagnostics_diagnostics.deep_view(),
                    self->Diagnostics_diagnostics.deep_view().len() as int,
                ),
            },
    {
        match self {
            LoadError::Io { path, message } => {
                let mut s = String::from_str("failed to read ");
                s.append(path.as_str());
                s.append(": ");
                s.append(message.as_str());
                proof {
                    assert(s@ =~= "failed to read "@ + path@ + ": "@ + message@);
                }
                s
            },
            LoadError::Diagnostics { path, diagnostics } => {
                let mut s = String::new();
                let ghost dm = diagnostics.deep_view();
                let mut i: usize = 0;
                proof {
                    assert(s@ =~= diags_display(path@, dm, 0));
                }
                while i < diagnostics.len()
                    invariant
                        i <= diagnostics@.len(),
                        dm == diagnostics.deep_view(),
                        dm.len() == diagnostics@.len(),
                        s@ == diags_display(path@, dm, i as int),
                    decreases diagnostics@.len() - i,
                {
                    let ghost pre = s@;
                    if i > 0 {
                        s.append("\n");
                    }
                    let d = &diagnostics[i];
                    s.append(path.as_str());
                    s.append(":");
                    let l = usize_to_string(d.span.line);
                    s.append(l.as_str());
                    s.append(":");
                    let c = usize_to_string(d.span.column);
                    s.append(c.as_str());
                    s.append(":");
                    let n = usize_to_string(d.span.length);
                    s.append(n.as_str());
                    s.append(" ");
                    s.append(d.semantic_path.as_str());
                    s.append(" | ");
                    s.append(d.message.as_str());
                    proof {
                        assert(dm[i as int] == d@);
                        if i > 0 {
                            assert(s@ =~= pre + "\n"@ + diag_line(path@, dm[i as int]));
                        } else {
                            assert(s@ =~= diag_line(path@, dm[0]));
                        }
                        assert(s@ =~= diags_display(path@, dm, i + 1));
                    }
                    i = i + 1;
                }
                proof {
                    assert(s@ == diags_display(path@, dm, dm.len() as int));
                }
                s
            },
        }
    }
}

/// One rendered diagnostic line.
pub open spec fn diag_line(path: Seq<char>, d: DiagnosticModel) -> Seq<char> {
    path + ":"@ + dec_digits(d.span.line as nat) + ":"@ + dec_digits(d.span.column as nat) + ":"@
        + dec_digits(d.span.length as nat) + " "@ + d.semantic_path + " | "@ + d.message
}

/// The first `upto` diagnostics rendered, joined by newlines.
pub open spec fn diags_display(path: Seq<char>, ds: Seq<DiagnosticModel>, upto: int) -> Seq<char>
    decreases upto,
{
    if upto <= 0 {
        Seq::empty()
    } else if upto == 1 {
        diag_line(path, ds[0])
    } else {
        diags_display(path, ds, upto - 1) + "\n"@ + diag_line(path, ds[upto - 1])
    }
}

} // verus!
