//! What the check for misuse says, from the calls as they are written and resolved.

use vstd::prelude::*;

use crate::diagnostic::{DiagnosticView, FixKind, FixView, Severity};
use crate::pin_misuse::{from_pin_project, pin_new_fix, pin_project_expansion};
use crate::sequences::{
    concat_map, indices, lemma_concat_map_step, lemma_prefix, lemma_total_length, total_length,
};
use crate::workspace::{
    AdtKind, Call, FileRange, FnContainer, MethodCall, Node, NodeKind, Path, Resolution, TypeInfo,
    Workspace,
};

verus! {

/// A method call is reported as a projection by hand exactly when it resolves to
/// `map_unchecked_mut` or `get_unchecked_mut` of the `Pin` of `core` or `std`, and no macro call
/// that it was expanded from belongs to the `pin-project` family. The name that is written, the
/// receiver and the arguments play no part.
pub proof fn law_hand_rolled_method(
    workspace: Workspace,
    nodes: Seq<Node>,
    m: int,
    call: MethodCall,
    f: usize,
)
    requires
        nodes[m].kind == NodeKind::MethodCall(call),
        call.resolved == Some(f),
    ensures
        workspace.hand_rolled_diagnostics(nodes, m) == (if ({
            &&& (workspace.functions@[f as int].name@ == "map_unchecked_mut"@ || workspace.functions@[f as int].name@ == "get_unchecked_mut"@)
            &&& workspace.functions@[f as int].container matches FnContainer::Impl(Some(adt))
            &&& workspace.adts@[adt as int].kind == AdtKind::Struct
            &&& workspace.adts@[adt as int].name@ == "Pin"@
            &&& workspace.adts@[adt as int].module_name matches Some(pin_module)
            &&& pin_module@ == "pin"@
            &&& workspace.adts@[adt as int].crate_name matches Some(pin_crate)
            &&& (pin_crate@ == "core"@ || pin_crate@ == "std"@)
            &&& !(exists|k: int|
                    0 <= k < call.site.expansions@.len() && (((#[trigger] call.site.expansions@[k]).defined_in matches Some(name) && (
                    name@ == "pin_project"@ || name@ == "pin_project_lite"@)) || (call.site.expansions@[k].called_in matches Some(name)
                        && (name@ == "pin_project"@ || name@ == "pin_project_lite"@))))
        }) {
            seq![
                DiagnosticView {
                    code: "pin-hand-rolled-projection"@,
                    severity: Severity::WeakWarning,
                    message: "hand-rolled pin projection via `Pin::"@ + workspace.functions@[f as int].name@
                        + "`; consider using `pin-project` or `pin-project-lite` to enforce structural-pinning invariants automatically"@,
                    range: call.site.display_range,
                    fixes: None,
                },
            ]
        } else {
            Seq::empty()
        }),
{
    let site = call.site;
    assert(from_pin_project(site) == (exists|k: int|
            0 <= k < site.expansions@.len() && (((#[trigger] site.expansions@[k]).defined_in matches Some(name) && (
            name@ == "pin_project"@ || name@ == "pin_project_lite"@)) || (site.expansions@[k].called_in matches Some(name)
                && (name@ == "pin_project"@ || name@ == "pin_project_lite"@))))) by {
        if from_pin_project(site) {
            let k = choose|k: int|
                0 <= k < site.expansions@.len() && pin_project_expansion(
                    #[trigger] site.expansions@[k],
                );
            assert(pin_project_expansion(site.expansions@[k]));
        }
        if exists|k: int|
                0 <= k < site.expansions@.len() && (((#[trigger] site.expansions@[k]).defined_in matches Some(name) && (
                name@ == "pin_project"@ || name@ == "pin_project_lite"@)) || (site.expansions@[k].called_in matches Some(name)
                    && (name@ == "pin_project"@ || name@ == "pin_project_lite"@))) {
            let k = choose|k: int|
                0 <= k < site.expansions@.len() && (((
                #[trigger] site.expansions@[k]).defined_in matches Some(name) && (name@
                    == "pin_project"@ || name@ == "pin_project_lite"@)) || (
                site.expansions@[k].called_in matches Some(name) && (name@ == "pin_project"@
                    || name@ == "pin_project_lite"@)));
            assert(pin_project_expansion(site.expansions@[k]));
        }
    }
}

/// A call by path is reported as a projection by hand exactly when the path resolves to
/// `map_unchecked_mut` or `get_unchecked_mut` of the `Pin` of `core` or `std`, and no macro call
/// that it was expanded from belongs to the `pin-project` family. The arguments play no part.
pub proof fn law_hand_rolled_path(
    workspace: Workspace,
    nodes: Seq<Node>,
    m: int,
    call: Call,
    callee: usize,
    path: Path,
    f: usize,
)
    requires
        nodes[m].kind == NodeKind::Call(call),
        call.callee == Some(callee),
        nodes[callee as int].kind == NodeKind::PathExpr(Some(path)),
        path.resolution == Some(Resolution::Function(f)),
    ensures
        workspace.hand_rolled_diagnostics(nodes, m) == (if ({
            &&& (workspace.functions@[f as int].name@ == "map_unchecked_mut"@ || workspace.functions@[f as int].name@ == "get_unchecked_mut"@)
            &&& workspace.functions@[f as int].container matches FnContainer::Impl(Some(adt))
            &&& workspace.adts@[adt as int].kind == AdtKind::Struct
            &&& workspace.adts@[adt as int].name@ == "Pin"@
            &&& workspace.adts@[adt as int].module_name matches Some(pin_module)
            &&& pin_module@ == "pin"@
            &&& workspace.adts@[adt as int].crate_name matches Some(pin_crate)
            &&& (pin_crate@ == "core"@ || pin_crate@ == "std"@)
            &&& !(exists|k: int|
                    0 <= k < call.site.expansions@.len() && (((#[trigger] call.site.expansions@[k]).defined_in matches Some(name) && (
                    name@ == "pin_project"@ || name@ == "pin_project_lite"@)) || (call.site.expansions@[k].called_in matches Some(name)
                        && (name@ == "pin_project"@ || name@ == "pin_project_lite"@))))
        }) {
            seq![
                DiagnosticView {
                    code: "pin-hand-rolled-projection"@,
                    severity: Severity::WeakWarning,
                    message: "hand-rolled pin projection via `Pin::"@ + workspace.functions@[f as int].name@
                        + "`; consider using `pin-project` or `pin-project-lite` to enforce structural-pinning invariants automatically"@,
                    range: call.site.display_range,
                    fixes: None,
                },
            ]
        } else {
            Seq::empty()
        }),
{
    let site = call.site;
    assert(from_pin_project(site) == (exists|k: int|
            0 <= k < site.expansions@.len() && (((#[trigger] site.expansions@[k]).defined_in matches Some(name) && (
            name@ == "pin_project"@ || name@ == "pin_project_lite"@)) || (site.expansions@[k].called_in matches Some(name)
                && (name@ == "pin_project"@ || name@ == "pin_project_lite"@))))) by {
        if from_pin_project(site) {
            let k = choose|k: int|
                0 <= k < site.expansions@.len() && pin_project_expansion(
                    #[trigger] site.expansions@[k],
                );
            assert(pin_project_expansion(site.expansions@[k]));
        }
        if exists|k: int|
                0 <= k < site.expansions@.len() && (((#[trigger] site.expansions@[k]).defined_in matches Some(name) && (
                name@ == "pin_project"@ || name@ == "pin_project_lite"@)) || (site.expansions@[k].called_in matches Some(name)
                    && (name@ == "pin_project"@ || name@ == "pin_project_lite"@))) {
            let k = choose|k: int|
                0 <= k < site.expansions@.len() && (((
                #[trigger] site.expansions@[k]).defined_in matches Some(name) && (name@
                    == "pin_project"@ || name@ == "pin_project_lite"@)) || (
                site.expansions@[k].called_in matches Some(name) && (name@ == "pin_project"@
                    || name@ == "pin_project_lite"@)));
            assert(pin_project_expansion(site.expansions@[k]));
        }
    }
}

/// Only calls whose function is known are reported as projections by hand.
pub proof fn law_hand_rolled_only_calls(workspace: Workspace, nodes: Seq<Node>, m: int)
    ensures
        workspace.hand_rolled_diagnostics(nodes, m).len() > 0 ==> ({
            ||| nodes[m].kind matches NodeKind::MethodCall(call) && call.resolved is Some
            ||| nodes[m].kind matches NodeKind::Call(call) && (call.callee matches Some(callee) && (
            nodes[callee as int].kind matches NodeKind::PathExpr(Some(path))
                && path.resolution matches Some(Resolution::Function(f))))
        }),
{
}

/// Two method calls that resolve to the same function and come from the same place are reported
/// alike, whatever they are called on and with.
pub proof fn law_receiver_plays_no_part(
    workspace: Workspace,
    nodes: Seq<Node>,
    m: int,
    others: Seq<Node>,
    n: int,
)
    requires
        nodes[m].kind matches NodeKind::MethodCall(call) && (
        others[n].kind matches NodeKind::MethodCall(other) && call.resolved == other.resolved
            && call.site == other.site),
    ensures
        workspace.hand_rolled_diagnostics(nodes, m) == workspace.hand_rolled_diagnostics(
            others,
            n,
        ),
{
}

/// A call by path with one argument of known type is reported as a wrong `Pin::new` exactly when
/// the path resolves to `new` of the `Pin` of `core` or `std`, and the value that would be pinned,
/// what the argument points to, does not implement `Unpin`. The diagnostic carries the fix that
/// writes `Box::pin` for the path.
pub proof fn law_pin_new(
    workspace: Workspace,
    file_id: u32,
    nodes: Seq<Node>,
    m: int,
    call: Call,
    callee: usize,
    path: Path,
    f: usize,
    arg: usize,
    ty: TypeInfo,
    unpin_trait: usize,
)
    requires
        nodes[m].kind == NodeKind::Call(call),
        call.callee == Some(callee),
        nodes[callee as int].kind == NodeKind::PathExpr(Some(path)),
        path.resolution == Some(Resolution::Function(f)),
        call.args matches Some(args) && args@ == seq![arg],
        nodes[arg as int].ty == Some(ty),
        workspace.marker_trait("Unpin"@) == Some(unpin_trait),
    ensures
        workspace.pin_new_diagnostics(file_id, nodes, m) == (if ({
            &&& workspace.functions@[f as int].name@ == "new"@
            &&& workspace.functions@[f as int].container matches FnContainer::Impl(Some(adt))
            &&& workspace.adts@[adt as int].kind == AdtKind::Struct
            &&& workspace.adts@[adt as int].name@ == "Pin"@
            &&& workspace.adts@[adt as int].module_name matches Some(pin_module)
            &&& pin_module@ == "pin"@
            &&& workspace.adts@[adt as int].crate_name matches Some(pin_crate)
            &&& (pin_crate@ == "core"@ || pin_crate@ == "std"@)
            &&& !(match ty.target_implements {
                Some(target) => target@.contains(unpin_trait),
                None => ty.implements@.contains(unpin_trait),
            })
        }) {
            seq![
                DiagnosticView {
                    code: "pin-new-on-non-unpin"@,
                    severity: Severity::Error,
                    message: "`Pin::new` requires `Unpin`, but `"@ + ty.display@
                        + "` is not `Unpin`. Use `Box::pin(...)` for heap pinning, or `unsafe { Pin::new_unchecked(...) } if you can guarantee the value is never moved."@,
                    range: call.site.display_range,
                    fixes: Some(
                        seq![
                            FixView {
                                id: "replace_pin_new_with_box_pin"@,
                                kind: FixKind::QuickFix,
                                label: "Replace `Pin::new` with `Box::pin`"@,
                                target: nodes[m].range,
                                replaced: FileRange { file_id, range: path.range },
                                replacement: "Box::pin"@,
                            },
                        ],
                    ),
                },
            ]
        } else {
            Seq::empty()
        }),
{
    assert(call.args->0@[0] == arg);
}

/// Nothing else is reported as a wrong `Pin::new`: a call by path, with exactly one argument,
/// whose type is known, where `Unpin` is known.
pub proof fn law_pin_new_only_calls(workspace: Workspace, file_id: u32, nodes: Seq<Node>, m: int)
    ensures
        workspace.pin_new_diagnostics(file_id, nodes, m).len() > 0 ==> ({
            &&& nodes[m].kind matches NodeKind::Call(call)
            &&& call.callee matches Some(callee)
            &&& nodes[callee as int].kind matches NodeKind::PathExpr(Some(path))
            &&& path.resolution is Some
            &&& path.resolution->0 is Function
            &&& call.args matches Some(args)
            &&& args@.len() == 1
            &&& nodes[args@[0] as int].ty is Some
            &&& workspace.marker_trait("Unpin"@) is Some
        }),
{
}

/// The fix for a call by path replaces the path, in the file, whatever the path names.
pub proof fn law_fix_replaces_the_path(
    file_id: u32,
    nodes: Seq<Node>,
    m: int,
    call: Call,
    callee: usize,
    path: Path,
)
    requires
        nodes[m].kind == NodeKind::Call(call),
        call.callee == Some(callee),
        nodes[callee as int].kind == NodeKind::PathExpr(Some(path)),
    ensures
        pin_new_fix(file_id, nodes, m) matches Some(fix) && fix.target == nodes[m].range
            && fix.replaced == (FileRange { file_id, range: path.range }) && fix.replacement
            == "Box::pin"@,
{
}

/// There is no fix for what is not a call by path.
pub proof fn law_no_fix(file_id: u32, nodes: Seq<Node>, m: int)
    requires
        pin_new_fix(file_id, nodes, m) is Some,
    ensures
        nodes[m].kind matches NodeKind::Call(call) && (call.callee matches Some(callee) && (
        nodes[callee as int].kind matches NodeKind::PathExpr(Some(path)) && path.range
            == pin_new_fix(file_id, nodes, m)->0.replaced.range)),
{
}

/// The check for misuse goes through the calls in document order; for each it reports first the
/// projection by hand, then the wrong `Pin::new`.
pub proof fn law_misuse_in_order(workspace: Workspace, file: int, m: usize)
    requires
        m < workspace.files@[file].nodes@.len(),
    ensures
        ({
            let nodes = workspace.files@[file].nodes@;
            let before = concat_map(indices(m as nat), workspace.misuse_at(file));
            let here = workspace.hand_rolled_diagnostics(nodes, m as int)
                + workspace.pin_new_diagnostics(
                workspace.files@[file].file_id,
                nodes,
                m as int,
            );
            before + here =~= workspace.misuse(file).take((before + here).len() as int)
        }),
{
    let nodes = workspace.files@[file].nodes@;
    assert(nodes.len() == workspace.files@[file].nodes.len());
    lemma_prefix(nodes.len(), workspace.misuse_at(file), (m + 1) as nat);
    lemma_concat_map_step(indices(nodes.len()), workspace.misuse_at(file), m as int);
    assert(indices(nodes.len()).take(m as int) =~= indices(m as nat));
    assert(indices(nodes.len()).take(m + 1) =~= indices((m + 1) as nat));
    assert(indices(nodes.len())[m as int] == m);
}

/// The check for misuse reports nothing but what single calls give, each once.
pub proof fn law_misuse_total(workspace: Workspace, file: int)
    ensures
        workspace.misuse(file).len() == total_length(
            indices(workspace.files@[file].nodes@.len()),
            workspace.misuse_at(file),
        ),
{
    lemma_total_length(
        indices(workspace.files@[file].nodes@.len()),
        workspace.misuse_at(file),
    );
}

} // verus!
