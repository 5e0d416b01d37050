//! Diagnostics and the fixes that they offer.

use vstd::prelude::*;

use crate::workspace::{FileRange, TextRange};

verus! {

/// How serious a diagnostic is.
#[derive(Clone, Copy, PartialEq, Eq, Structural, Debug)]
pub enum Severity {
    Error,
    Warning,
    WeakWarning,
}

/// A message for the user about a place in a file.
#[derive(Debug)]
pub struct Diagnostic {
    pub code: &'static str,
    pub severity: Severity,
    pub message: String,
    pub range: FileRange,
    pub fixes: Option<Vec<Fix>>,
}

/// The kinds of fixes.
#[derive(Clone, Copy, PartialEq, Eq, Structural, Debug)]
pub enum FixKind {
    QuickFix,
}

/// An edit that the user can apply.
#[derive(Debug)]
pub struct Fix {
    pub id: &'static str,
    pub kind: FixKind,
    pub label: &'static str,
    /// The place for which the fix is offered.
    pub target: TextRange,
    /// The text that is replaced.
    pub replaced: FileRange,
    /// What it is replaced by.
    pub replacement: &'static str,
}

/// What a fix says.
pub struct FixView {
    pub id: Seq<char>,
    pub kind: FixKind,
    pub label: Seq<char>,
    pub target: TextRange,
    pub replaced: FileRange,
    pub replacement: Seq<char>,
}

impl View for Fix {
    type V = FixView;

    open spec fn view(&self) -> FixView {
        FixView {
            id: self.id@,
            kind: self.kind,
            label: self.label@,
            target: self.target,
            replaced: self.replaced,
            replacement: self.replacement@,
        }
    }
}

/// What a diagnostic says.
pub struct DiagnosticView {
    pub code: Seq<char>,
    pub severity: Severity,
    pub message: Seq<char>,
    pub range: FileRange,
    pub fixes: Option<Seq<FixView>>,
}

impl View for Diagnostic {
    type V = DiagnosticView;

    open spec fn view(&self) -> DiagnosticView {
        DiagnosticView {
            code: self.code@,
            severity: self.severity,
            message: self.message@,
            range: self.range,
            fixes: match self.fixes {
                Some(fixes) => Some(fixes@.map_values(|fix: Fix| fix@)),
                None => None,
            },
        }
    }
}

/// What the diagnostics of a list say.
pub open spec fn views(list: Seq<Diagnostic>) -> Seq<DiagnosticView> {
    list.map_values(|diagnostic: Diagnostic| diagnostic@)
}

/// A diagnostic without fixes.
pub open spec fn plain_diagnostic(
    code: Seq<char>,
    severity: Severity,
    message: Seq<char>,
    range: FileRange,
) -> DiagnosticView {
    DiagnosticView { code, severity, message, range, fixes: None }
}

impl Diagnostic {
    /// Makes a diagnostic without fixes.
    pub fn new(
        code: &'static str,
        severity: Severity,
        message: String,
        range: FileRange,
    ) -> (diagnostic: Diagnostic)
        ensures
            diagnostic@ == plain_diagnostic(code@, severity, message@, range),
    {
        Diagnostic { code, severity, message, range, fixes: None }
    }

    /// Sets the fixes.
    pub fn with_fixes(self, fixes: Option<Vec<Fix>>) -> (diagnostic: Diagnostic)
        ensures
            diagnostic@ == (DiagnosticView {
                fixes: match fixes {
                    Some(list) => Some(list@.map_values(|fix: Fix| fix@)),
                    None => None,
                },
                ..self@
            }),
    {
        Diagnostic { fixes, ..self }
    }
}

/// Adds a diagnostic to a list.
pub fn emit(out: &mut Vec<Diagnostic>, diagnostic: Diagnostic)
    ensures
        views(final(out)@) == views(old(out)@).push(diagnostic@),
{
    let ghost before = out@;
    out.push(diagnostic);
    assert(views(out@) =~= views(before).push(diagnostic@));
}

} // verus!
