//! Calls that handle pins by hand: unchecked projections, and `Pin::new` on a value that is not
//! `Unpin`.

use vstd::prelude::*;
use vstd::string::StringExecFns;

use crate::diagnostic::{
    emit, plain_diagnostic, views, Diagnostic, DiagnosticView, Fix, FixKind, FixView, Severity,
};
use crate::facts::{callee_function, pinned_implements, pinned_impls_trait, resolve_callee};
use crate::sequences::{concat_map, indices, lemma_concat_map_step};
use crate::text::{is_text, same_text, text_is};
use crate::workspace::{CallSite, Expansion, FileRange, Node, NodeKind, Workspace};

verus! {

// ---------------------------------------------------------------------------
// Meaning
// ---------------------------------------------------------------------------

/// Where the call that a node is, if it is one, comes from.
pub open spec fn call_site(kind: NodeKind) -> Option<CallSite> {
    match kind {
        NodeKind::MethodCall(call) => Some(call.site),
        NodeKind::Call(call) => Some(call.site),
        _ => None,
    }
}

/// The function that node `m` calls.
pub open spec fn called_function(nodes: Seq<Node>, m: int) -> Option<usize> {
    match nodes[m].kind {
        NodeKind::MethodCall(call) => call.resolved,
        _ => callee_function(nodes, m),
    }
}

/// Whether a crate belongs to the `pin-project` family.
pub open spec fn pin_project_crate(name: Option<String>) -> bool {
    text_is(name, "pin_project"@) || text_is(name, "pin_project_lite"@)
}

/// Whether a macro call belongs to the `pin-project` family: the macro, or the call itself.
pub open spec fn pin_project_expansion(expansion: Expansion) -> bool {
    pin_project_crate(expansion.defined_in) || pin_project_crate(expansion.called_in)
}

/// Whether a call was expanded from a macro call of the `pin-project` family.
pub open spec fn from_pin_project(site: CallSite) -> bool {
    exists|k: int|
        0 <= k < site.expansions@.len() && pin_project_expansion(#[trigger] site.expansions@[k])
}

/// Whether a method of `Pin` projects without checks.
pub open spec fn unchecked_projection(name: Seq<char>) -> bool {
    name == "map_unchecked_mut"@ || name == "get_unchecked_mut"@
}

/// The message for a projection by hand.
pub open spec fn hand_rolled_message(name: Seq<char>) -> Seq<char> {
    "hand-rolled pin projection via `Pin::"@ + name
        + "`; consider using `pin-project` or `pin-project-lite` to enforce structural-pinning invariants automatically"@
}

/// The message for `Pin::new` on a value of a type that is not `Unpin`.
pub open spec fn pin_new_message(type_display: Seq<char>) -> Seq<char> {
    "`Pin::new` requires `Unpin`, but `"@ + type_display
        + "` is not `Unpin`. Use `Box::pin(...)` for heap pinning, or `unsafe { Pin::new_unchecked(...) } if you can guarantee the value is never moved."@
}

/// The fix for node `m`, a call of `Pin::new`: to write `Box::pin` in place of the path.
pub open spec fn pin_new_fix(file_id: u32, nodes: Seq<Node>, m: int) -> Option<FixView> {
    match nodes[m].kind {
        NodeKind::Call(call) => match call.callee {
            Some(callee) => match nodes[callee as int].kind {
                NodeKind::PathExpr(Some(path)) => Some(
                    FixView {
                        id: "replace_pin_new_with_box_pin"@,
                        kind: FixKind::QuickFix,
                        label: "Replace `Pin::new` with `Box::pin`"@,
                        target: nodes[m].range,
                        replaced: FileRange { file_id, range: path.range },
                        replacement: "Box::pin"@,
                    },
                ),
                _ => None,
            },
            None => None,
        },
        _ => None,
    }
}

impl Workspace {
    /// Whether node `m` projects a pin by hand: it calls an unchecked projection of `Pin`, and
    /// was not written by a macro of the `pin-project` family.
    pub open spec fn projects_by_hand(self, nodes: Seq<Node>, m: int) -> bool {
        &&& call_site(nodes[m].kind) matches Some(site)
        &&& called_function(nodes, m) matches Some(f)
        &&& unchecked_projection(self.functions@[f as int].name@)
        &&& self.pin_function(f)
        &&& !from_pin_project(site)
    }

    /// The diagnostic for a projection by hand at node `m`.
    pub open spec fn hand_rolled_diagnostics(self, nodes: Seq<Node>, m: int) -> Seq<DiagnosticView> {
        if self.projects_by_hand(nodes, m) {
            seq![
                plain_diagnostic(
                    "pin-hand-rolled-projection"@,
                    Severity::WeakWarning,
                    hand_rolled_message(
                        self.functions@[called_function(nodes, m)->0 as int].name@,
                    ),
                    call_site(nodes[m].kind)->0.display_range,
                ),
            ]
        } else {
            Seq::empty()
        }
    }

    /// Whether node `m` is a call `Pin::new(value)` with one argument, of a known type, and what
    /// it pins is not `Unpin`: the value that the argument points to.
    pub open spec fn pins_non_unpin(self, nodes: Seq<Node>, m: int) -> bool {
        &&& nodes[m].kind matches NodeKind::Call(call)
        &&& callee_function(nodes, m) matches Some(f)
        &&& self.functions@[f as int].name@ == "new"@
        &&& self.pin_function(f)
        &&& call.args matches Some(args)
        &&& args@.len() == 1
        &&& nodes[args@[0] as int].ty matches Some(ty)
        &&& self.marker_trait("Unpin"@) matches Some(t)
        &&& !pinned_implements(ty, t)
    }

    /// The diagnostic for `Pin::new` at node `m`, with its fix.
    pub open spec fn pin_new_diagnostics(self, file_id: u32, nodes: Seq<Node>, m: int) -> Seq<
        DiagnosticView,
    > {
        if self.pins_non_unpin(nodes, m) {
            let call = nodes[m].kind->Call_0;
            let ty = nodes[call.args->0@[0] as int].ty->0;
            seq![
                DiagnosticView {
                    code: "pin-new-on-non-unpin"@,
                    severity: Severity::Error,
                    message: pin_new_message(ty.display@),
                    range: call.site.display_range,
                    fixes: match pin_new_fix(file_id, nodes, m) {
                        Some(fix) => Some(seq![fix]),
                        None => None,
                    },
                },
            ]
        } else {
            Seq::empty()
        }
    }

    /// The diagnostics for the call at a node.
    pub open spec fn misuse_at(self, file: int) -> spec_fn(usize) -> Seq<DiagnosticView> {
        |m: usize|
            self.hand_rolled_diagnostics(self.tree(file), m as int) + self.pin_new_diagnostics(
                self.files@[file].file_id,
                self.tree(file),
                m as int,
            )
    }

    /// The diagnostics for the calls of a file, in document order.
    pub open spec fn misuse(self, file: int) -> Seq<DiagnosticView> {
        concat_map(indices(self.tree(file).len()), self.misuse_at(file))
    }
}

// ---------------------------------------------------------------------------
// Checks
// ---------------------------------------------------------------------------

/// Whether a crate belongs to the `pin-project` family.
fn is_pin_project_crate(name: &Option<String>) -> (answer: bool)
    ensures
        answer == pin_project_crate(*name),
{
    is_text(name, "pin_project") || is_text(name, "pin_project_lite")
}

/// Whether a macro call belongs to the `pin-project` family.
pub fn is_pin_project_expansion(expansion: &Expansion) -> (answer: bool)
    ensures
        answer == pin_project_expansion(*expansion),
{
    is_pin_project_crate(&expansion.defined_in) || is_pin_project_crate(&expansion.called_in)
}

/// Whether a call was expanded from a macro call of the `pin-project` family.
pub fn originates_from_pin_project_macro(site: &CallSite) -> (answer: bool)
    ensures
        answer == from_pin_project(*site),
{
    let mut k: usize = 0;
    while k < site.expansions.len()
        invariant
            k <= site.expansions@.len(),
            forall|j: int| 0 <= j < k ==> !pin_project_expansion(#[trigger] site.expansions@[j]),
        decreases site.expansions.len() - k,
    {
        if is_pin_project_expansion(&site.expansions[k]) {
            assert(pin_project_expansion(site.expansions@[k as int]));
            return true;
        }
        k += 1;
    }
    false
}

impl Workspace {
    /// Finds the calls of a file that handle pins by hand.
    pub fn pin_misuse(&self, file: usize) -> (diagnostics: Vec<Diagnostic>)
        requires
            self.wf(),
            file < self.files@.len(),
        ensures
            views(diagnostics@) == self.misuse(file as int),
    {
        let nodes = &self.files[file].nodes;
        let ghost all = indices(nodes@.len());
        let ghost part = self.misuse_at(file as int);
        let mut diagnostics: Vec<Diagnostic> = Vec::new();
        let mut m: usize = 0;
        assert(views(diagnostics@) =~= concat_map(all.take(0), part));
        while m < nodes.len()
            invariant
                self.wf(),
                file < self.files@.len(),
                nodes@ == self.tree(file as int),
                all == indices(nodes@.len()),
                part == self.misuse_at(file as int),
                m <= nodes@.len(),
                views(diagnostics@) == concat_map(all.take(m as int), part),
            decreases nodes.len() - m,
        {
            let ghost before = views(diagnostics@);
            self.check_hand_rolled_projection(file, m, &mut diagnostics);
            self.check_pin_new_on_non_unpin(file, m, &mut diagnostics);
            proof {
                lemma_concat_map_step(all, part, m as int);
                assert(all[m as int] == m);
                assert(views(diagnostics@) =~= before + part(m));
            }
            m += 1;
        }
        assert(all.take(m as int) =~= all);
        diagnostics
    }

    /// Reports node `m` if it projects a pin by hand.
    pub fn check_hand_rolled_projection(&self, file: usize, m: usize, out: &mut Vec<Diagnostic>)
        requires
            self.wf(),
            file < self.files@.len(),
            m < self.tree(file as int).len(),
        ensures
            views(final(out)@) == views(old(out)@) + self.hand_rolled_diagnostics(
                self.tree(file as int),
                m as int,
            ),
    {
        let nodes = &self.files[file].nodes;
        proof {
            assert(self.tree_ok(self.tree(file as int)));
            assert(self.node_ok(nodes@, m as int));
            assert(views(out@) =~= views(out@) + Seq::empty());
        }
        let (site, function): (&CallSite, Option<usize>) = match &nodes[m].kind {
            NodeKind::MethodCall(call) => (&call.site, call.resolved),
            NodeKind::Call(call) => (&call.site, resolve_callee(nodes, m)),
            _ => {
                return;
            },
        };
        let f: usize = match function {
            Some(f) => f,
            None => {
                return;
            },
        };
        proof {
            if nodes@[m as int].kind is Call {
                let c = nodes@[m as int].kind->Call_0.callee->0;
                assert(self.node_ok(nodes@, c as int));
            }
        }
        let name: &str = self.functions[f].name.as_str();
        if !same_text(name, "map_unchecked_mut") && !same_text(name, "get_unchecked_mut") {
            return;
        }
        if !self.is_pin_function(f) || originates_from_pin_project_macro(site) {
            return;
        }
        let message: String = "hand-rolled pin projection via `Pin::".to_owned().concat(name).concat(
            "`; consider using `pin-project` or `pin-project-lite` to enforce structural-pinning invariants automatically",
        );
        let ghost before = views(out@);
        emit(
            out,
            Diagnostic::new(
                "pin-hand-rolled-projection",
                Severity::WeakWarning,
                message,
                site.display_range,
            ),
        );
        assert(views(out@) =~= before + self.hand_rolled_diagnostics(nodes@, m as int));
    }

    /// Reports node `m` if it calls `Pin::new` on a value that is not `Unpin`.
    pub fn check_pin_new_on_non_unpin(&self, file: usize, m: usize, out: &mut Vec<Diagnostic>)
        requires
            self.wf(),
            file < self.files@.len(),
            m < self.tree(file as int).len(),
        ensures
            views(final(out)@) == views(old(out)@) + self.pin_new_diagnostics(
                self.files@[file as int].file_id,
                self.tree(file as int),
                m as int,
            ),
    {
        let file_id: u32 = self.files[file].file_id;
        let nodes = &self.files[file].nodes;
        proof {
            assert(self.tree_ok(self.tree(file as int)));
            assert(self.node_ok(nodes@, m as int));
            assert(views(out@) =~= views(out@) + Seq::empty());
        }
        let call = match &nodes[m].kind {
            NodeKind::Call(call) => call,
            _ => {
                return;
            },
        };
        let f: usize = match resolve_callee(nodes, m) {
            Some(f) => f,
            None => {
                return;
            },
        };
        proof {
            let c = call.callee->0;
            assert(self.node_ok(nodes@, c as int));
        }
        if !same_text(self.functions[f].name.as_str(), "new") || !self.is_pin_function(f) {
            return;
        }
        let args: &Vec<usize> = match &call.args {
            Some(args) => args,
            None => {
                return;
            },
        };
        if args.len() != 1 {
            return;
        }
        assert(call.args->0@[0] < nodes@.len());
        let ty = match &nodes[args[0]].ty {
            Some(ty) => ty,
            None => {
                return;
            },
        };
        let unpin_trait: usize = match self.find_marker_trait("Unpin") {
            Some(t) => t,
            None => {
                return;
            },
        };
        if pinned_impls_trait(ty, unpin_trait) {
            return;
        }
        let message: String = "`Pin::new` requires `Unpin`, but `".to_owned().concat(
            ty.display.as_str(),
        ).concat(
            "` is not `Unpin`. Use `Box::pin(...)` for heap pinning, or `unsafe { Pin::new_unchecked(...) } if you can guarantee the value is never moved.",
        );
        let mut diagnostic = Diagnostic::new(
            "pin-new-on-non-unpin",
            Severity::Error,
            message,
            call.site.display_range,
        );
        if let Some(fix) = self.build_pin_new_fix(file, m) {
            let ghost offered = fix@;
            let mut fixes: Vec<Fix> = Vec::new();
            fixes.push(fix);
            assert(fixes@.map_values(|fix: Fix| fix@) =~= seq![offered]);
            diagnostic = diagnostic.with_fixes(Some(fixes));
        }
        let ghost before = views(out@);
        emit(out, diagnostic);
        assert(views(out@) =~= before + self.pin_new_diagnostics(file_id, nodes@, m as int));
    }

    /// Builds the fix for node `m`, a call of `Pin::new`.
    pub fn build_pin_new_fix(&self, file: usize, m: usize) -> (fix: Option<Fix>)
        requires
            self.wf(),
            file < self.files@.len(),
            m < self.tree(file as int).len(),
        ensures
            (match fix {
                Some(fix) => Some(fix@),
                None => None,
            }) == pin_new_fix(self.files@[file as int].file_id, self.tree(file as int), m as int),
    {
        let file_id: u32 = self.files[file].file_id;
        let nodes = &self.files[file].nodes;
        proof {
            assert(self.tree_ok(self.tree(file as int)));
            assert(self.node_ok(nodes@, m as int));
        }
        match &nodes[m].kind {
            NodeKind::Call(call) => match call.callee {
                Some(callee) => match &nodes[callee].kind {
                    NodeKind::PathExpr(Some(path)) => Some(
                        Fix {
                            id: "replace_pin_new_with_box_pin",
                            kind: FixKind::QuickFix,
                            label: "Replace `Pin::new` with `Box::pin`",
                            target: nodes[m].range,
                            replaced: FileRange { file_id, range: path.range },
                            replacement: "Box::pin",
                        },
                    ),
                    _ => None,
                },
                None => None,
            },
            _ => None,
        }
    }
}

} // verus!
