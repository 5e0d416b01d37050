//! What a `Drop` impl does to a field, and what is said about it, from the code as it is written
//! and resolved.

use vstd::prelude::*;

use crate::diagnostic::{DiagnosticView, Severity};
use crate::foundation_laws::law_first_some;
use crate::laws::{law_drop_verdict, may_move_below, moves_below};
use crate::pin_consistency::TraitKind;
use crate::pin_drop_analysis::{
    argument_is_self_field, drop_body, drop_fn, may_move_at, move_diagnostic, self_field,
    targets_self_field, use_context, DropVerdict, FieldUseContext, MovePatternKind,
};
use crate::sequences::{
    concat_map, indices, lemma_concat_map_step, lemma_prefix, lemma_total_length, total_length,
};
use crate::text::joined;
use crate::tree::within;
use crate::workspace::{
    AssocItem, BinaryOp, Call, FileRange, FnItem, ImplItem, Node, NodeKind, Path, Resolution,
    TextRange, TypeKind, TypeSyntax, Workspace,
};

verus! {

// ---------------------------------------------------------------------------
// The function that is judged
// ---------------------------------------------------------------------------

/// What is judged is the body of the first function called `drop`, wherever it stands among the
/// members and however many there are: alone, first, last or between others.
pub proof fn law_drop_body(nodes: Seq<Node>, item: ImplItem, k: int, f: usize, function: FnItem)
    requires
        item.items matches Some(items) && 0 <= k < items@.len() && items@[k] == AssocItem::FnItem(f)
            && (forall|j: int|
            0 <= j < k ==> !(#[trigger] items@[j] matches AssocItem::FnItem(g) && (
            nodes[g as int].kind matches NodeKind::FnItem(other) && (
            other.name matches Some(name) && name@ == "drop"@)))),
        nodes[f as int].kind == NodeKind::FnItem(function),
        function.name matches Some(name) && name@ == "drop"@,
    ensures
        drop_body(nodes, item) == function.body,
{
    let items = item.items->0@;
    assert forall|j: int| 0 <= j < k implies #[trigger] drop_fn(nodes)(items[j]) is None by {
        assert(item.items->0@[j] == items[j]);
    }
    law_first_some(items, drop_fn(nodes), k);
}

/// Without a function called `drop` there is nothing to judge.
pub proof fn law_no_drop_body(nodes: Seq<Node>, item: ImplItem)
    requires
        item.items matches Some(items) ==> forall|j: int|
            0 <= j < items@.len() ==> !(#[trigger] items@[j] matches AssocItem::FnItem(g) && (
            nodes[g as int].kind matches NodeKind::FnItem(other) && (
            other.name matches Some(name) && name@ == "drop"@))),
    ensures
        drop_body(nodes, item) is None,
{
    if item.items is Some {
        let items = item.items->0@;
        assert forall|j: int| 0 <= j < items.len() implies #[trigger] drop_fn(nodes)(
            items[j],
        ) is None by {
            assert(item.items->0@[j] == items[j]);
        }
        law_first_some(items, drop_fn(nodes), 0);
    }
}

/// The other members of an impl play no part: two impls that agree on their first function called
/// `drop` get the same verdicts.
pub proof fn law_other_members_play_no_part(
    workspace: Workspace,
    nodes: Seq<Node>,
    item: ImplItem,
    other: ImplItem,
    k: int,
    n: int,
    f: usize,
    function: FnItem,
    field: Seq<char>,
)
    requires
        item.items matches Some(items) && 0 <= k < items@.len() && items@[k] == AssocItem::FnItem(f)
            && (forall|j: int|
            0 <= j < k ==> !(#[trigger] items@[j] matches AssocItem::FnItem(g) && (
            nodes[g as int].kind matches NodeKind::FnItem(earlier) && (
            earlier.name matches Some(name) && name@ == "drop"@)))),
        other.items matches Some(items) && 0 <= n < items@.len() && items@[n] == AssocItem::FnItem(
            f,
        ) && (forall|j: int|
            0 <= j < n ==> !(#[trigger] items@[j] matches AssocItem::FnItem(g) && (
            nodes[g as int].kind matches NodeKind::FnItem(earlier) && (
            earlier.name matches Some(name) && name@ == "drop"@)))),
        nodes[f as int].kind == NodeKind::FnItem(function),
        function.name matches Some(name) && name@ == "drop"@,
    ensures
        workspace.drop_verdict(nodes, item, field) == workspace.drop_verdict(nodes, other, field),
        function.body matches Some(body) ==> workspace.drop_verdict(nodes, item, field)
            == workspace.body_verdict(nodes, body, field),
        function.body is None ==> workspace.drop_verdict(nodes, item, field) == DropVerdict::NoMove,
{
    law_drop_body(nodes, item, k, f, function);
    law_drop_body(nodes, other, n, f, function);
}

// ---------------------------------------------------------------------------
// How a field is used
// ---------------------------------------------------------------------------

/// How a field expression is used depends on the node that it stands in: what that is, and
/// whether the field is what it borrows, assigns to or calls a method on.
pub proof fn law_use_context(nodes: Seq<Node>, m: usize, p: usize)
    requires
        nodes[m as int].parent == Some(p),
        !(nodes[p as int].kind is ParenExpr),
    ensures
        use_context(nodes, m) == FieldUseContext::Borrow <==> (
        nodes[p as int].kind matches NodeKind::RefExpr { mutable: _, expr } && (expr == Some(m))),
        use_context(nodes, m) == FieldUseContext::Assignment <==> (
        nodes[p as int].kind matches NodeKind::BinExpr { op, lhs } && op == Some(
            BinaryOp::Assignment,
        ) && (lhs == Some(m))),
        use_context(nodes, m) == FieldUseContext::MethodReceiver <==> (
        nodes[p as int].kind matches NodeKind::MethodCall(call) && (call.receiver == Some(m))),
        use_context(nodes, m) == FieldUseContext::PassedAsArgument <==> nodes[p as int].kind is ArgList
            && !({
            &&& nodes[p as int].parent matches Some(c)
            &&& nodes[c as int].kind matches NodeKind::Call(call)
            &&& call.callee matches Some(callee)
            &&& nodes[callee as int].kind matches NodeKind::PathExpr(Some(path))
            &&& path.resolution == Some(Resolution::Constructor)
        }),
        use_context(nodes, m) == FieldUseContext::DirectMove <==> ({
            ||| nodes[p as int].kind is LetStmt
            ||| nodes[p as int].kind is ReturnExpr
            ||| nodes[p as int].kind is TupleExpr
            ||| nodes[p as int].kind is RecordExprField
            ||| ({
                &&& nodes[p as int].kind is ArgList
                &&& nodes[p as int].parent matches Some(c)
                &&& nodes[c as int].kind matches NodeKind::Call(call)
                &&& call.callee matches Some(callee)
                &&& nodes[callee as int].kind matches NodeKind::PathExpr(Some(path))
                &&& path.resolution == Some(Resolution::Constructor)
            })
        }),
{
}

/// A field expression in one pair of parentheses is used as the parentheses are.
pub proof fn law_use_context_in_parens(nodes: Seq<Node>, m: usize, p: usize, q: usize)
    requires
        nodes[m as int].parent == Some(p),
        nodes[p as int].kind is ParenExpr,
        nodes[p as int].parent == Some(q),
    ensures
        use_context(nodes, m) == FieldUseContext::Borrow <==> (
        nodes[q as int].kind matches NodeKind::RefExpr { mutable: _, expr } && (expr == Some(m) || expr == Some(p))),
        use_context(nodes, m) == FieldUseContext::Assignment <==> (
        nodes[q as int].kind matches NodeKind::BinExpr { op, lhs } && op == Some(
            BinaryOp::Assignment,
        ) && (lhs == Some(m) || lhs == Some(p))),
        use_context(nodes, m) == FieldUseContext::MethodReceiver <==> (
        nodes[q as int].kind matches NodeKind::MethodCall(call) && (call.receiver == Some(m) || call.receiver == Some(p))),
        use_context(nodes, m) == FieldUseContext::PassedAsArgument <==> nodes[q as int].kind is ArgList
            && !({
            &&& nodes[q as int].parent matches Some(c)
            &&& nodes[c as int].kind matches NodeKind::Call(call)
            &&& call.callee matches Some(callee)
            &&& nodes[callee as int].kind matches NodeKind::PathExpr(Some(path))
            &&& path.resolution == Some(Resolution::Constructor)
        }),
        use_context(nodes, m) == FieldUseContext::DirectMove <==> ({
            ||| nodes[q as int].kind is LetStmt
            ||| nodes[q as int].kind is ReturnExpr
            ||| nodes[q as int].kind is TupleExpr
            ||| nodes[q as int].kind is RecordExprField
            ||| ({
                &&& nodes[q as int].kind is ArgList
                &&& nodes[q as int].parent matches Some(c)
                &&& nodes[c as int].kind matches NodeKind::Call(call)
                &&& call.callee matches Some(callee)
                &&& nodes[callee as int].kind matches NodeKind::PathExpr(Some(path))
                &&& path.resolution == Some(Resolution::Constructor)
            })
        }),
{
}

/// A field expression that stands in nothing is not used in any known way.
pub proof fn law_use_context_of_root(nodes: Seq<Node>, m: usize)
    requires
        nodes[m as int].parent is None,
    ensures
        use_context(nodes, m) == FieldUseContext::Other,
{
}

// ---------------------------------------------------------------------------
// Moves
// ---------------------------------------------------------------------------

/// A node is `self.field` exactly when it is a field access of that name on a path that ends in
/// `self`.
pub proof fn law_self_field(nodes: Seq<Node>, m: usize, field: Seq<char>)
    ensures
        self_field(nodes, m as int, field) <==> ({
            &&& nodes[m as int].kind matches NodeKind::Field(access)
            &&& access.name matches Some(field_name)
            &&& field_name@ == field
            &&& access.expr matches Some(base)
            &&& nodes[base as int].kind matches NodeKind::PathExpr(Some(self_path))
            &&& self_path.segment matches Some(self_segment)
            &&& self_segment.name matches Some(self_name)
            &&& self_name@ == "self"@
        }),
{
}

/// A use of `self.field` moves it, or may move it, by the way it is used: assigning to it is a
/// move; using it by value is one unless its type is known to be `Copy`; calling a method on it,
/// or using it in any other way, may be one; borrowing it is none.
pub proof fn law_moves_of_a_field(workspace: Workspace, nodes: Seq<Node>, m: usize, field: Seq<char>)
    requires
        ({
            &&& nodes[m as int].kind matches NodeKind::Field(access)
            &&& access.name matches Some(field_name)
            &&& field_name@ == field
            &&& access.expr matches Some(base)
            &&& nodes[base as int].kind matches NodeKind::PathExpr(Some(self_path))
            &&& self_path.segment matches Some(self_segment)
            &&& self_segment.name matches Some(self_name)
            &&& self_name@ == "self"@
        }),
    ensures
        ({
            let context = use_context(nodes, m);
            let copied = nodes[m as int].ty matches Some(ty) && (
            workspace.marker_trait("Copy"@) matches Some(t) && ty.implements@.contains(t));
            let by_value = context == FieldUseContext::DirectMove || context
                == FieldUseContext::PassedAsArgument;
            &&& context == FieldUseContext::Assignment ==> workspace.move_at(nodes, m, field)
                == Some((nodes[m as int].range, MovePatternKind::Assignment))
            &&& by_value && !copied ==> workspace.move_at(nodes, m, field) == Some(
                (nodes[m as int].range, MovePatternKind::DirectMove),
            )
            &&& by_value && copied ==> workspace.move_at(nodes, m, field) is None
            &&& !by_value && context != FieldUseContext::Assignment ==> workspace.move_at(
                nodes,
                m,
                field,
            ) is None
            &&& may_move_at(nodes, m, field) <==> context == FieldUseContext::MethodReceiver
                || context == FieldUseContext::Other
        }),
{
}

/// A node that is neither a field access nor a call moves nothing; and only `self.field` itself
/// may move the field.
pub proof fn law_other_nodes_move_nothing(
    workspace: Workspace,
    nodes: Seq<Node>,
    m: usize,
    field: Seq<char>,
)
    ensures
        !(nodes[m as int].kind is Field) && !(nodes[m as int].kind is Call) ==> workspace.move_at(
            nodes,
            m,
            field,
        ) is None,
        nodes[m as int].kind is Field && !({
            &&& nodes[m as int].kind matches NodeKind::Field(access)
            &&& access.name matches Some(field_name)
            &&& field_name@ == field
            &&& access.expr matches Some(base)
            &&& nodes[base as int].kind matches NodeKind::PathExpr(Some(self_path))
            &&& self_path.segment matches Some(self_segment)
            &&& self_segment.name matches Some(self_name)
            &&& self_name@ == "self"@
        }) ==> workspace.move_at(nodes, m, field) is None,
        may_move_at(nodes, m, field) ==> ({
            &&& nodes[m as int].kind matches NodeKind::Field(access)
            &&& access.name matches Some(field_name)
            &&& field_name@ == field
            &&& access.expr matches Some(base)
            &&& nodes[base as int].kind matches NodeKind::PathExpr(Some(self_path))
            &&& self_path.segment matches Some(self_segment)
            &&& self_segment.name matches Some(self_name)
            &&& self_name@ == "self"@
        }),
{
}

/// An argument stands for a field when it is `self.field`, a reference to it, mutable or not, or
/// a reference to it in parentheses.
pub proof fn law_argument_is_self_field(nodes: Seq<Node>, a: usize, field: Seq<char>)
    ensures
        argument_is_self_field(nodes, a as int, field) <==> ({
                ||| ({
                    &&& nodes[a as int].kind matches NodeKind::Field(access)
                    &&& access.name matches Some(field_name)
                    &&& field_name@ == field
                    &&& access.expr matches Some(base)
                    &&& nodes[base as int].kind matches NodeKind::PathExpr(Some(self_path))
                    &&& self_path.segment matches Some(self_segment)
                    &&& self_segment.name matches Some(self_name)
                    &&& self_name@ == "self"@
                })
                ||| ({
                    &&& nodes[a as int].kind matches NodeKind::RefExpr { mutable: _, expr: Some(place) }
                    &&& nodes[place as int].kind matches NodeKind::Field(access)
                    &&& access.name matches Some(field_name)
                    &&& field_name@ == field
                    &&& access.expr matches Some(base)
                    &&& nodes[base as int].kind matches NodeKind::PathExpr(Some(self_path))
                    &&& self_path.segment matches Some(self_segment)
                    &&& self_segment.name matches Some(self_name)
                    &&& self_name@ == "self"@
                })
                ||| ({
                    &&& nodes[a as int].kind matches NodeKind::RefExpr { mutable: _, expr: Some(parens) }
                    &&& nodes[parens as int].kind matches NodeKind::ParenExpr { expr: Some(place) }
                    &&& nodes[place as int].kind matches NodeKind::Field(access)
                    &&& access.name matches Some(field_name)
                    &&& field_name@ == field
                    &&& access.expr matches Some(base)
                    &&& nodes[base as int].kind matches NodeKind::PathExpr(Some(self_path))
                    &&& self_path.segment matches Some(self_segment)
                    &&& self_segment.name matches Some(self_name)
                    &&& self_name@ == "self"@
                })
            }),
{
}

/// A call with such an argument, at whatever place, moves the field exactly when it calls
/// `replace`, `swap` or `take` of `mem`, or `read` of `ptr`, of `core` or `std`.
pub proof fn law_moving_call(
    workspace: Workspace,
    nodes: Seq<Node>,
    m: usize,
    call: Call,
    callee: usize,
    path: Path,
    f: usize,
    k: int,
    field: Seq<char>,
)
    requires
        nodes[m as int].kind == NodeKind::Call(call),
        call.callee == Some(callee),
        nodes[callee as int].kind == NodeKind::PathExpr(Some(path)),
        path.resolution == Some(Resolution::Function(f)),
        call.args matches Some(args) && 0 <= k < args@.len() && argument_is_self_field(
            nodes,
            args@[k] as int,
            field,
        ),
    ensures
        ({
            let def = workspace.functions@[f as int];
            let library = def.crate_name matches Some(krate) && (krate@ == "core"@ || krate@
                == "std"@);
            let mem = library && (def.module_name matches Some(module) && module@ == "mem"@);
            let ptr = library && (def.module_name matches Some(module) && module@ == "ptr"@);
            let found = workspace.move_at(nodes, m, field);
            let here = nodes[m as int].range;
            &&& found == Some((here, MovePatternKind::MemReplace)) <==> mem && def.name@
                == "replace"@
            &&& found == Some((here, MovePatternKind::MemSwap)) <==> mem && def.name@ == "swap"@
            &&& found == Some((here, MovePatternKind::MemTake)) <==> mem && def.name@ == "take"@
            &&& found == Some((here, MovePatternKind::PtrRead)) <==> ptr && def.name@ == "read"@
            &&& found is Some <==> (mem && (def.name@ == "replace"@ || def.name@ == "swap"@
                || def.name@ == "take"@)) || (ptr && def.name@ == "read"@)
        }),
{
    reveal_strlit("replace");
    reveal_strlit("swap");
    reveal_strlit("take");
    reveal_strlit("read");
    reveal_strlit("mem");
    reveal_strlit("ptr");
    assert("replace"@.len() == 7 && "swap"@.len() == 4 && "take"@.len() == 4 && "read"@.len() == 4);
    assert("swap"@[0] != "take"@[0] && "swap"@[0] != "read"@[0] && "take"@[0] != "read"@[0]);
    assert("mem"@[0] != "ptr"@[0]);
    assert(argument_is_self_field(nodes, call.args->0@[k] as int, field));
    assert(targets_self_field(nodes, m as int, field));
}

/// A call without such an argument does not move the field, whatever it calls.
pub proof fn law_call_without_the_field(
    workspace: Workspace,
    nodes: Seq<Node>,
    m: usize,
    call: Call,
    field: Seq<char>,
)
    requires
        nodes[m as int].kind == NodeKind::Call(call),
        call.args matches Some(args) ==> forall|k: int|
            0 <= k < args@.len() ==> !argument_is_self_field(
                nodes,
                #[trigger] args@[k] as int,
                field,
            ),
    ensures
        workspace.move_at(nodes, m, field) is None,
{
}

/// A body with a certain move of a field, anywhere, moves it: a `Drop` impl whose first function
/// called `drop` has such a body gets the verdict that says so, however many members it has.
pub proof fn law_move_in_drop(
    workspace: Workspace,
    file: int,
    item: ImplItem,
    k: int,
    f: usize,
    function: FnItem,
    body: usize,
    m: usize,
    field: Seq<char>,
)
    requires
        item.items matches Some(items) && 0 <= k < items@.len() && items@[k] == AssocItem::FnItem(f)
            && (forall|j: int|
            0 <= j < k ==> !(#[trigger] items@[j] matches AssocItem::FnItem(g) && (
            workspace.files@[file].nodes@[g as int].kind matches NodeKind::FnItem(other) && (
            other.name matches Some(name) && name@ == "drop"@)))),
        workspace.files@[file].nodes@[f as int].kind == NodeKind::FnItem(function),
        function.name matches Some(name) && name@ == "drop"@,
        function.body == Some(body),
        m < workspace.files@[file].nodes@.len(),
        within(workspace.files@[file].nodes@, m as int, body as int),
    ensures
        ({
            let nodes = workspace.files@[file].nodes@;
            let verdict = workspace.drop_verdict(nodes, item, field);
            &&& workspace.move_at(nodes, m, field) is Some ==> verdict is DefinitelyMoves
            &&& may_move_at(nodes, m, field) ==> !(verdict is NoMove)
        }),
{
    let nodes = workspace.files@[file].nodes@;
    assert(workspace.tree(file) == nodes);
    law_drop_body(nodes, item, k, f, function);
    law_drop_verdict(workspace, file, body, field);
    if workspace.move_at(nodes, m, field) is Some {
        assert(moves_below(workspace, nodes, body, m, field));
    }
    if may_move_at(nodes, m, field) {
        assert(may_move_below(nodes, body, m, field));
    }
}

// ---------------------------------------------------------------------------
// What is said
// ---------------------------------------------------------------------------

/// What is said of a certain move.
pub proof fn law_move_text(file_id: u32, field: Seq<char>, site: TextRange, kind: MovePatternKind)
    ensures
        move_diagnostic(file_id, field, site, kind) == (DiagnosticView {
            code: "pin-drop-moves-pinned-field"@,
            severity: Severity::Warning,
            message: "structurally pinned field `"@ + field + "` is "@ + (match kind {
                MovePatternKind::DirectMove => "moved by value"@,
                MovePatternKind::MemReplace => "replaced via `mem::replace`"@,
                MovePatternKind::MemSwap => "swapped via `mem::swap`"@,
                MovePatternKind::MemTake => "taken via `mem::take`"@,
                MovePatternKind::PtrRead => "read out via `ptr::read`"@,
                MovePatternKind::Assignment => "reassigned (overwriting the pinned value in-place)"@,
            })
                + " in `Drop::drop`. This breaks the pin guarantee: pinned values must remain at the same memory location until their destructor runs to completion. Either leave this field untouched in `drop`, or migrate the type to `pin-project` (which generates a sound `Drop`)."@,
            range: FileRange { file_id, range: site },
            fixes: None,
        }),
{
}

/// A `Drop` impl that moves no field for certain, but may move one, gets one hint, which lists
/// all the structurally pinned fields.
pub proof fn law_drop_hint_text(
    workspace: Workspace,
    file_id: u32,
    nodes: Seq<Node>,
    m: int,
    item: ImplItem,
    fields: Seq<Seq<char>>,
    i: int,
)
    requires
        nodes[m].kind == NodeKind::Impl(item),
        forall|k: int|
            0 <= k < fields.len() ==> !(workspace.drop_verdict(
                nodes,
                item,
                #[trigger] fields[k],
            ) is DefinitelyMoves),
        0 <= i < fields.len(),
        workspace.drop_verdict(nodes, item, fields[i]) == DropVerdict::PossiblyMoves,
    ensures
        workspace.drop_diagnostics(file_id, nodes, m, fields) == seq![
            DiagnosticView {
                code: "pin-drop-on-structural"@,
                severity: Severity::WeakWarning,
                message: "manual `Drop` impl on a type with structurally pinned field(s): `"@
                    + joined(fields, ", "@)
                    + "`. The body of `drop` receives `&mut self` and must not move out of these fields, or the pin guarantee is broken. Verify, or migrate to `pin-project` which generates a sound `Drop` for you."@,
                range: FileRange {
                    file_id,
                    range: match item.impl_token {
                        Some(keyword) => keyword,
                        None => nodes[m].range,
                    },
                },
                fixes: None,
            },
        ],
{
    let pick = workspace.certain_move(file_id, nodes, item);
    assert forall|k: int| 0 <= k < fields.len() implies #[trigger] pick(fields[k]) is None by {
        assert(!(workspace.drop_verdict(nodes, item, fields[k]) is DefinitelyMoves));
    }
    crate::laws::lemma_filter_map_empty(fields, pick);
    assert(workspace.may_move(nodes, item, fields)) by {
        assert(workspace.drop_verdict(nodes, item, fields[i]) == DropVerdict::PossiblyMoves);
    }
}

/// Every certain move of a structurally pinned field by a `Drop` impl is in what is said of the
/// impl, and that says nothing else then.
pub proof fn law_drop_moves_text(
    workspace: Workspace,
    file_id: u32,
    nodes: Seq<Node>,
    m: int,
    item: ImplItem,
    fields: Seq<Seq<char>>,
    i: int,
    site: TextRange,
    kind: MovePatternKind,
)
    requires
        nodes[m].kind == NodeKind::Impl(item),
        0 <= i < fields.len(),
        workspace.drop_verdict(nodes, item, fields[i]) == (DropVerdict::DefinitelyMoves {
            site,
            kind,
        }),
    ensures
        workspace.drop_diagnostics(file_id, nodes, m, fields).contains(
            DiagnosticView {
                code: "pin-drop-moves-pinned-field"@,
                severity: Severity::Warning,
                message: "structurally pinned field `"@ + fields[i] + "` is "@ + (match kind {
                    MovePatternKind::DirectMove => "moved by value"@,
                    MovePatternKind::MemReplace => "replaced via `mem::replace`"@,
                    MovePatternKind::MemSwap => "swapped via `mem::swap`"@,
                    MovePatternKind::MemTake => "taken via `mem::take`"@,
                    MovePatternKind::PtrRead => "read out via `ptr::read`"@,
                    MovePatternKind::Assignment => "reassigned (overwriting the pinned value in-place)"@,
                })
                    + " in `Drop::drop`. This breaks the pin guarantee: pinned values must remain at the same memory location until their destructor runs to completion. Either leave this field untouched in `drop`, or migrate the type to `pin-project` (which generates a sound `Drop`)."@,
                range: FileRange { file_id, range: site },
                fixes: None,
            },
        ),
        forall|d: int|
            0 <= d < workspace.drop_diagnostics(file_id, nodes, m, fields).len() ==> (
            #[trigger] workspace.drop_diagnostics(file_id, nodes, m, fields)[d]).code
                == "pin-drop-moves-pinned-field"@,
{
    assert(fields.contains(fields[i]));
    crate::laws::law_drop_moves_reported(
        workspace,
        file_id,
        nodes,
        m,
        fields,
        fields[i],
        site,
        kind,
    );
    crate::laws::law_drop_hint_or_moves(workspace, file_id, nodes, m, fields);
}

/// The certain moves of a `Drop` impl are said in the order of the structurally pinned fields,
/// one for each field that is moved.
pub proof fn law_drop_moves_in_order(
    workspace: Workspace,
    file_id: u32,
    nodes: Seq<Node>,
    m: int,
    item: ImplItem,
    fields: Seq<Seq<char>>,
    i: int,
)
    requires
        nodes[m].kind == NodeKind::Impl(item),
        0 <= i < fields.len(),
        workspace.drop_verdict(nodes, item, fields[i]) is DefinitelyMoves,
    ensures
        workspace.drop_diagnostics(file_id, nodes, m, fields) == fields.filter_map(
            |field: Seq<char>|
                match workspace.drop_verdict(nodes, item, field) {
                    DropVerdict::DefinitelyMoves { site, kind } => Some(
                        move_diagnostic(file_id, field, site, kind),
                    ),
                    _ => None,
                },
        ),
{
    let said = |field: Seq<char>|
        match workspace.drop_verdict(nodes, item, field) {
            DropVerdict::DefinitelyMoves { site, kind } => Some(
                move_diagnostic(file_id, field, site, kind),
            ),
            _ => None,
        };
    let pick = workspace.certain_move(file_id, nodes, item);
    assert(said =~= pick);
    assert(pick(fields[i]) is Some);
    crate::laws::lemma_filter_map_empty(fields, pick);
}

/// The `Drop` and `Unpin` impls of a file are checked one after the other, each against the
/// structurally pinned fields of the type that it is for, wherever these are pinned in the file.
pub proof fn law_trait_impls_in_order(
    workspace: Workspace,
    file: int,
    m: usize,
    item: ImplItem,
    trait_type: TypeSyntax,
    self_type: TypeSyntax,
    adt: usize,
)
    requires
        m < workspace.files@[file].nodes@.len(),
        workspace.files@[file].nodes@[m as int].kind == NodeKind::Impl(item),
        item.trait_type == Some(trait_type),
        item.self_type == Some(self_type),
        self_type.kind matches TypeKind::Path(Some(path)) && path.resolution == Some(
            Resolution::Adt(adt),
        ),
    ensures
        ({
            let nodes = workspace.files@[file].nodes@;
            let file_id = workspace.files@[file].file_id;
            let fields = workspace.structural_fields(nodes, adt);
            let before = concat_map(indices(m as nat), workspace.trait_impl_at(file));
            let here = match workspace.trait_kind(trait_type) {
                Some(TraitKind::Drop) => workspace.drop_diagnostics(
                    file_id,
                    nodes,
                    m as int,
                    fields,
                ),
                Some(TraitKind::Unpin) => workspace.unpin_diagnostics(
                    file_id,
                    nodes,
                    m as int,
                    adt,
                    fields,
                ),
                None => Seq::empty(),
            };
            before + here =~= workspace.broken_trait_impls(file).take((before + here).len() as int)
        }),
{
    let nodes = workspace.files@[file].nodes@;
    assert(nodes.len() == workspace.files@[file].nodes.len());
    lemma_prefix(nodes.len(), workspace.trait_impl_at(file), (m + 1) as nat);
    lemma_concat_map_step(indices(nodes.len()), workspace.trait_impl_at(file), m as int);
    assert(indices(nodes.len()).take(m as int) =~= indices(m as nat));
    assert(indices(nodes.len()).take(m + 1) =~= indices((m + 1) as nat));
    assert(indices(nodes.len())[m as int] == m);
}

/// The check of a file says nothing about trait impls but what its nodes give, each once.
pub proof fn law_trait_impls_total(workspace: Workspace, file: int)
    ensures
        workspace.broken_trait_impls(file).len() == total_length(
            indices(workspace.files@[file].nodes@.len()),
            workspace.trait_impl_at(file),
        ),
{
    lemma_total_length(
        indices(workspace.files@[file].nodes@.len()),
        workspace.trait_impl_at(file),
    );
}

/// Nothing but a trait impl for a struct, enum or union is checked there.
pub proof fn law_only_trait_impls(workspace: Workspace, file: int, m: usize)
    requires
        workspace.trait_impl_at(file)(m).len() > 0,
    ensures
        workspace.files@[file].nodes@[m as int].kind matches NodeKind::Impl(item) && (
        item.trait_type matches Some(trait_type) && workspace.trait_kind(trait_type) is Some) && (
        item.self_type matches Some(ty) && (ty.kind matches TypeKind::Path(Some(path))
            && path.resolution matches Some(Resolution::Adt(adt)))),
{
}

} // verus!
