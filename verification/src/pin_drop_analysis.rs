//! What a `Drop` impl does to the structurally pinned fields of its type.

use vstd::prelude::*;
use vstd::string::StringExecFns;

use crate::diagnostic::{plain_diagnostic, Diagnostic, DiagnosticView, Severity};
use crate::facts::{
    callee_function, constructs, core_or_std, implements, impls_trait, is_constructor_call,
    is_core_or_std, is_self_expr, resolve_callee, self_expr,
};
use crate::sequences::{first_some, lemma_first_some_prefix, lemma_first_some_step};
use crate::text::{is_text, same_text, text_is};
use crate::tree::{descendants, parent_ok, parents_ok, subtree};
use crate::wellformed::lemma_parents_ok;
use crate::workspace::{
    AssocItem, BinaryOp, FileRange, ImplItem, Node, NodeKind, TextRange, Workspace,
};

verus! {

/// What `drop` does to one field.
#[derive(Clone, Copy, PartialEq, Eq, Structural, Debug)]
pub enum DropVerdict {
    DefinitelyMoves { site: TextRange, kind: MovePatternKind },
    PossiblyMoves,
    NoMove,
}

/// A way in which a field is moved.
#[derive(Clone, Copy, PartialEq, Eq, Structural, Debug)]
pub enum MovePatternKind {
    DirectMove,
    MemReplace,
    MemSwap,
    MemTake,
    PtrRead,
    Assignment,
}

/// How a field expression is used by what stands around it.
#[derive(Clone, Copy, PartialEq, Eq, Structural, Debug)]
pub enum FieldUseContext {
    /// Wrapped in `&` or `&mut`.
    Borrow,
    /// The left side of an assignment.
    Assignment,
    /// Used by value, as in `let x = self.field;`, `return self.field;` or `Some(self.field)`.
    DirectMove,
    /// Passed by value to a function or method.
    PassedAsArgument,
    /// The receiver of a method call.
    MethodReceiver,
    /// Anything else.
    Other,
}

// ---------------------------------------------------------------------------
// Meaning
// ---------------------------------------------------------------------------

impl MovePatternKind {
    /// The words that describe the move in a message.
    pub open spec fn description(self) -> Seq<char> {
        match self {
            MovePatternKind::DirectMove => "moved by value"@,
            MovePatternKind::MemReplace => "replaced via `mem::replace`"@,
            MovePatternKind::MemSwap => "swapped via `mem::swap`"@,
            MovePatternKind::MemTake => "taken via `mem::take`"@,
            MovePatternKind::PtrRead => "read out via `ptr::read`"@,
            MovePatternKind::Assignment => "reassigned (overwriting the pinned value in-place)"@,
        }
    }
}

/// Whether node `m` is the expression `self.field`.
pub open spec fn self_field(nodes: Seq<Node>, m: int, field: Seq<char>) -> bool {
    nodes[m].kind matches NodeKind::Field(access) && text_is(access.name, field) && (
    access.expr matches Some(e) && self_expr(nodes, e as int))
}

/// The node around node `m`, looking through one pair of parentheses.
pub open spec fn surrounding(nodes: Seq<Node>, m: int) -> Option<usize> {
    match nodes[m].parent {
        Some(p) => if nodes[p as int].kind is ParenExpr && nodes[p as int].parent is Some {
            nodes[p as int].parent
        } else {
            Some(p)
        },
        None => None,
    }
}

/// Whether a link leads to node `m`, looking through one pair of parentheses.
pub open spec fn leads_to(nodes: Seq<Node>, link: Option<usize>, m: usize) -> bool {
    ||| link == Some(m)
    ||| nodes[m as int].parent matches Some(p) && nodes[p as int].kind is ParenExpr && link == Some(
        p,
    )
}

/// Whether node `a`, an argument list, holds the fields of a tuple struct or tuple variant.
pub open spec fn constructor_args(nodes: Seq<Node>, a: int) -> bool {
    nodes[a].parent matches Some(c) && constructs(nodes, c as int)
}

/// How node `m`, a field expression, is used.
pub open spec fn use_context(nodes: Seq<Node>, m: usize) -> FieldUseContext {
    match surrounding(nodes, m as int) {
        Some(p) => match nodes[p as int].kind {
            NodeKind::RefExpr { mutable, expr } if leads_to(nodes, expr, m) =>
                FieldUseContext::Borrow,
            NodeKind::BinExpr { op, lhs } if op == Some(BinaryOp::Assignment) && leads_to(
                nodes,
                lhs,
                m,
            ) => FieldUseContext::Assignment,
            NodeKind::MethodCall(call) if leads_to(nodes, call.receiver, m) =>
                FieldUseContext::MethodReceiver,
            NodeKind::ArgList => if constructor_args(nodes, p as int) {
                FieldUseContext::DirectMove
            } else {
                FieldUseContext::PassedAsArgument
            },
            NodeKind::LetStmt => FieldUseContext::DirectMove,
            NodeKind::ReturnExpr => FieldUseContext::DirectMove,
            NodeKind::TupleExpr => FieldUseContext::DirectMove,
            NodeKind::RecordExprField => FieldUseContext::DirectMove,
            _ => FieldUseContext::Other,
        },
        None => FieldUseContext::Other,
    }
}

/// The expression at node `e`, looking into one pair of parentheses.
pub open spec fn inside_parens(nodes: Seq<Node>, e: usize) -> Option<usize> {
    match nodes[e as int].kind {
        NodeKind::ParenExpr { expr } => expr,
        _ => Some(e),
    }
}

/// Whether an argument is `self.field` or a reference to it, which may stand in parentheses under
/// the reference.
pub open spec fn argument_is_self_field(nodes: Seq<Node>, a: int, field: Seq<char>) -> bool {
    match nodes[a].kind {
        NodeKind::RefExpr { mutable, expr } => expr matches Some(e) && (inside_parens(
            nodes,
            e,
        ) matches Some(place) && self_field(nodes, place as int, field)),
        _ => self_field(nodes, a, field),
    }
}

/// Whether node `m` is a call with `self.field`, or a reference to it, among its arguments.
pub open spec fn targets_self_field(nodes: Seq<Node>, m: int, field: Seq<char>) -> bool {
    nodes[m].kind matches NodeKind::Call(call) && (call.args matches Some(args) && exists|k: int|
        0 <= k < args@.len() && argument_is_self_field(
            nodes,
            #[trigger] args@[k] as int,
            field,
        ))
}

/// Picks the node of a function called `drop`.
pub open spec fn drop_fn(nodes: Seq<Node>) -> spec_fn(AssocItem) -> Option<usize> {
    |item: AssocItem|
        match item {
            AssocItem::FnItem(f) => match nodes[f as int].kind {
                NodeKind::FnItem(function) if text_is(function.name, "drop"@) => Some(f),
                _ => None,
            },
            AssocItem::Other => None,
        }
}

/// The body of the first function called `drop` of an impl.
pub open spec fn drop_body(nodes: Seq<Node>, item: ImplItem) -> Option<usize> {
    match item.items {
        Some(items) => match first_some(items@, drop_fn(nodes)) {
            Some(f) => match nodes[f as int].kind {
                NodeKind::FnItem(function) => function.body,
                _ => None,
            },
            None => None,
        },
        None => None,
    }
}

/// The message for a field that `drop` moves.
pub open spec fn move_message(field: Seq<char>, kind: MovePatternKind) -> Seq<char> {
    "structurally pinned field `"@ + field + "` is "@ + kind.description()
        + " in `Drop::drop`. This breaks the pin guarantee: pinned values must remain at the same memory location until their destructor runs to completion. Either leave this field untouched in `drop`, or migrate the type to `pin-project` (which generates a sound `Drop`)."@
}

/// The diagnostic for a field that `drop` moves.
pub open spec fn move_diagnostic(
    file_id: u32,
    field: Seq<char>,
    site: TextRange,
    kind: MovePatternKind,
) -> DiagnosticView {
    plain_diagnostic(
        "pin-drop-moves-pinned-field"@,
        Severity::Warning,
        move_message(field, kind),
        FileRange { file_id, range: site },
    )
}

impl Workspace {
    /// The kind of move that node `m`, a call, makes through `&mut`, if it calls one of the
    /// functions of `core` or `std` that do.
    pub open spec fn move_call(self, nodes: Seq<Node>, m: int) -> Option<MovePatternKind> {
        match callee_function(nodes, m) {
            Some(f) => {
                let def = self.functions@[f as int];
                if !core_or_std(def.crate_name) {
                    None
                } else if text_is(def.module_name, "mem"@) && def.name@ == "replace"@ {
                    Some(MovePatternKind::MemReplace)
                } else if text_is(def.module_name, "mem"@) && def.name@ == "swap"@ {
                    Some(MovePatternKind::MemSwap)
                } else if text_is(def.module_name, "mem"@) && def.name@ == "take"@ {
                    Some(MovePatternKind::MemTake)
                } else if text_is(def.module_name, "ptr"@) && def.name@ == "read"@ {
                    Some(MovePatternKind::PtrRead)
                } else {
                    None
                }
            },
            None => None,
        }
    }

    /// Whether the type of node `m` is known to be `Copy`.
    pub open spec fn copy_typed(self, nodes: Seq<Node>, m: int) -> bool {
        nodes[m].ty matches Some(ty) && (self.marker_trait("Copy"@) matches Some(t) && implements(
            ty,
            t,
        ))
    }

    /// Whether node `m` certainly moves `self.field`: where and how.
    pub open spec fn move_at(self, nodes: Seq<Node>, m: usize, field: Seq<char>) -> Option<
        (TextRange, MovePatternKind),
    > {
        let here = nodes[m as int].range;
        if self_field(nodes, m as int, field) {
            match use_context(nodes, m) {
                FieldUseContext::Assignment => Some((here, MovePatternKind::Assignment)),
                FieldUseContext::DirectMove | FieldUseContext::PassedAsArgument =>
                    if self.copy_typed(nodes, m as int) {
                        None
                    } else {
                        Some((here, MovePatternKind::DirectMove))
                    },
                _ => None,
            }
        } else if targets_self_field(nodes, m as int, field) {
            match self.move_call(nodes, m as int) {
                Some(kind) => Some((here, kind)),
                None => None,
            }
        } else {
            None
        }
    }

    /// Picks the certain moves of `self.field`.
    pub open spec fn moves_of(self, nodes: Seq<Node>, field: Seq<char>) -> spec_fn(usize) -> Option<
        (TextRange, MovePatternKind),
    > {
        |m: usize| self.move_at(nodes, m, field)
    }

    /// What the code below node `body` does to `self.field`: the first certain move decides;
    /// without one, a use that cannot be judged leaves the move possible.
    pub open spec fn body_verdict(self, nodes: Seq<Node>, body: usize, field: Seq<char>) -> DropVerdict {
        match first_some(subtree(nodes, body), self.moves_of(nodes, field)) {
            Some((site, kind)) => DropVerdict::DefinitelyMoves { site, kind },
            None => if exists|k: int|
                0 <= k < subtree(nodes, body).len() && may_move_at(
                    nodes,
                    #[trigger] subtree(nodes, body)[k],
                    field,
                ) {
                DropVerdict::PossiblyMoves
            } else {
                DropVerdict::NoMove
            },
        }
    }

    /// What a `Drop` impl does to a field.
    pub open spec fn drop_verdict(self, nodes: Seq<Node>, item: ImplItem, field: Seq<char>) -> DropVerdict {
        match drop_body(nodes, item) {
            Some(body) => self.body_verdict(nodes, body, field),
            None => DropVerdict::NoMove,
        }
    }
}

/// Whether node `m` uses `self.field` in a way that may or may not move it.
pub open spec fn may_move_at(nodes: Seq<Node>, m: usize, field: Seq<char>) -> bool {
    self_field(nodes, m as int, field) && (use_context(nodes, m) == FieldUseContext::MethodReceiver
        || use_context(nodes, m) == FieldUseContext::Other)
}

// ---------------------------------------------------------------------------
// Analysis
// ---------------------------------------------------------------------------

impl MovePatternKind {
    /// Describes the move for a message.
    pub fn describe(&self) -> (words: &'static str)
        ensures
            words@ == self.description(),
    {
        match self {
            MovePatternKind::DirectMove => "moved by value",
            MovePatternKind::MemReplace => "replaced via `mem::replace`",
            MovePatternKind::MemSwap => "swapped via `mem::swap`",
            MovePatternKind::MemTake => "taken via `mem::take`",
            MovePatternKind::PtrRead => "read out via `ptr::read`",
            MovePatternKind::Assignment => "reassigned (overwriting the pinned value in-place)",
        }
    }
}

/// Finds the function called `drop` of an impl.
fn find_drop_fn(nodes: &Vec<Node>, items: &Vec<AssocItem>) -> (found: Option<usize>)
    requires
        forall|k: int|
            0 <= k < items@.len() ==> (#[trigger] items@[k] matches AssocItem::FnItem(f) ==> f
                < nodes@.len() && nodes@[f as int].kind is FnItem),
    ensures
        found == first_some(items@, drop_fn(nodes@)),
        found matches Some(f) ==> f < nodes@.len() && nodes@[f as int].kind is FnItem,
{
    let ghost pick = drop_fn(nodes@);
    let mut k: usize = 0;
    while k < items.len()
        invariant
            k <= items@.len(),
            forall|j: int|
                0 <= j < items@.len() ==> (#[trigger] items@[j] matches AssocItem::FnItem(f) ==> f
                    < nodes@.len() && nodes@[f as int].kind is FnItem),
            pick == drop_fn(nodes@),
            first_some(items@.take(k as int), pick) is None,
        decreases items.len() - k,
    {
        proof {
            lemma_first_some_step(items@, pick, k as int);
        }
        if let AssocItem::FnItem(f) = items[k] {
            assert(items@[k as int] == AssocItem::FnItem(f));
            if let NodeKind::FnItem(function) = &nodes[f].kind {
                if is_text(&function.name, "drop") {
                    proof {
                        lemma_first_some_prefix(items@, pick, k + 1);
                    }
                    return Some(f);
                }
            }
        }
        k += 1;
    }
    assert(items@.take(k as int) =~= items@);
    None
}

impl Workspace {
    /// Judges what the `drop` function of impl `imp` does to each of the given fields.
    pub fn analyze_drop_body(
        &self,
        file: usize,
        imp: usize,
        structural_fields: &Vec<String>,
    ) -> (verdicts: Vec<(String, DropVerdict)>)
        requires
            self.wf(),
            file < self.files@.len(),
            imp < self.tree(file as int).len(),
            self.tree(file as int)[imp as int].kind is Impl,
        ensures
            verdicts@.len() == structural_fields@.len(),
            forall|i: int|
                0 <= i < verdicts@.len() ==> (#[trigger] verdicts@[i]).0@ == structural_fields@[i]@
                    && verdicts@[i].1 == self.drop_verdict(
                    self.tree(file as int),
                    self.tree(file as int)[imp as int].kind->Impl_0,
                    structural_fields@[i]@,
                ),
    {
        let nodes = &self.files[file].nodes;
        let ghost item = nodes@[imp as int].kind->Impl_0;
        proof {
            assert(self.tree_ok(self.tree(file as int)));
            assert(self.node_ok(nodes@, imp as int));
        }
        let mut body: Option<usize> = None;
        if let NodeKind::Impl(item) = &nodes[imp].kind {
            if let Some(items) = &item.items {
                assert(forall|k: int|
                    0 <= k < items@.len() ==> (#[trigger] item.items->0@[k] matches
                        AssocItem::FnItem(f) ==> f < nodes@.len() && nodes@[f as int].kind is FnItem));
                if let Some(f) = find_drop_fn(nodes, items) {
                    if let NodeKind::FnItem(function) = &nodes[f].kind {
                        assert(self.node_ok(nodes@, f as int));
                        body = function.body;
                    }
                }
            }
        }
        assert(body == drop_body(nodes@, item));
        let mut verdicts: Vec<(String, DropVerdict)> = Vec::new();
        let mut i: usize = 0;
        while i < structural_fields.len()
            invariant
                self.wf(),
                file < self.files@.len(),
                nodes@ == self.tree(file as int),
                body == drop_body(nodes@, item),
                body matches Some(b) ==> b < nodes@.len(),
                i <= structural_fields@.len(),
                verdicts@.len() == i,
                forall|j: int|
                    0 <= j < i ==> (#[trigger] verdicts@[j]).0@ == structural_fields@[j]@
                        && verdicts@[j].1 == self.drop_verdict(
                        nodes@,
                        item,
                        structural_fields@[j]@,
                    ),
            decreases structural_fields.len() - i,
        {
            let verdict = match body {
                Some(b) => self.classify_drop_body_for_field(
                    file,
                    b,
                    structural_fields[i].as_str(),
                ),
                None => DropVerdict::NoMove,
            };
            verdicts.push((structural_fields[i].clone(), verdict));
            i += 1;
        }
        verdicts
    }

    /// Judges what the code below node `body` does to `self.field`.
    pub fn classify_drop_body_for_field(
        &self,
        file: usize,
        body: usize,
        field: &str,
    ) -> (verdict: DropVerdict)
        requires
            self.wf(),
            file < self.files@.len(),
            body < self.tree(file as int).len(),
        ensures
            verdict == self.body_verdict(self.tree(file as int), body, field@),
    {
        let nodes = &self.files[file].nodes;
        let ghost pick = self.moves_of(nodes@, field@);
        proof {
            lemma_parents_ok(*self, file as int);
            assert(self.tree_ok(self.tree(file as int)));
            assert forall|c: int| 0 <= c < nodes@.len() implies (#[trigger] nodes@[c].kind matches
                NodeKind::Call(call) ==> (call.callee matches Some(callee) ==> callee
                < nodes@.len())) by {
                assert(self.node_ok(nodes@, c));
            }
        }
        let list: Vec<usize> = descendants(nodes, body);
        let mut possibly: bool = false;
        let mut k: usize = 0;
        while k < list.len()
            invariant
                self.wf(),
                file < self.files@.len(),
                nodes@ == self.tree(file as int),
                self.tree_ok(nodes@),
                parents_ok(nodes@),
                forall|c: int|
                    0 <= c < nodes@.len() ==> (#[trigger] nodes@[c].kind matches NodeKind::Call(
                        call,
                    ) ==> (call.callee matches Some(callee) ==> callee < nodes@.len())),
                list@ == subtree(nodes@, body),
                forall|j: int| 0 <= j < list@.len() ==> #[trigger] list@[j] < nodes@.len(),
                k <= list@.len(),
                pick == self.moves_of(nodes@, field@),
                first_some(list@.take(k as int), pick) is None,
                possibly == exists|j: int|
                    0 <= j < k && may_move_at(nodes@, #[trigger] list@[j], field@),
            decreases list.len() - k,
        {
            proof {
                lemma_first_some_step(list@, pick, k as int);
            }
            let m: usize = list[k];
            let ghost was_possibly = possibly;
            assert(self.node_ok(nodes@, m as int));
            let mut moved: Option<MovePatternKind> = None;
            match &nodes[m].kind {
                NodeKind::Field(_) => {
                    if is_self_field_with_name(nodes, m, field) {
                        match classify_field_use_context(nodes, m) {
                            FieldUseContext::Borrow => {},
                            FieldUseContext::Assignment => {
                                moved = Some(MovePatternKind::Assignment);
                            },
                            FieldUseContext::DirectMove | FieldUseContext::PassedAsArgument => {
                                if !self.field_is_copy(file, m) {
                                    moved = Some(MovePatternKind::DirectMove);
                                }
                            },
                            FieldUseContext::MethodReceiver | FieldUseContext::Other => {
                                possibly = true;
                            },
                        }
                    }
                },
                NodeKind::Call(_) => {
                    if self.call_targets_self_field(file, m, field) {
                        moved = self.is_known_move_call(file, m);
                    }
                },
                _ => {},
            }
            if let Some(kind) = moved {
                assert(pick(m) == Some((nodes@[m as int].range, kind)));
                proof {
                    lemma_first_some_prefix(list@, pick, k + 1);
                }
                return DropVerdict::DefinitelyMoves { site: nodes[m].range, kind };
            }
            proof {
                assert(pick(m) is None);
                assert(possibly == (was_possibly || may_move_at(nodes@, list@[k as int], field@)));
            }
            k += 1;
        }
        assert(list@.take(k as int) =~= list@);
        if possibly {
            DropVerdict::PossiblyMoves
        } else {
            DropVerdict::NoMove
        }
    }

    /// Whether the type of node `m` is known to be `Copy`.
    pub fn field_is_copy(&self, file: usize, m: usize) -> (answer: bool)
        requires
            self.wf(),
            file < self.files@.len(),
            m < self.tree(file as int).len(),
        ensures
            answer == self.copy_typed(self.tree(file as int), m as int),
    {
        match &self.files[file].nodes[m].ty {
            Some(ty) => match self.find_marker_trait("Copy") {
                Some(t) => impls_trait(ty, t),
                None => false,
            },
            None => false,
        }
    }

    /// Whether node `m` is a call with `self.field`, or a reference to it, among its arguments.
    pub fn call_targets_self_field(&self, file: usize, m: usize, field: &str) -> (answer: bool)
        requires
            self.wf(),
            file < self.files@.len(),
            m < self.tree(file as int).len(),
        ensures
            answer == targets_self_field(self.tree(file as int), m as int, field@),
    {
        let nodes = &self.files[file].nodes;
        proof {
            assert(self.tree_ok(self.tree(file as int)));
            assert(self.node_ok(nodes@, m as int));
        }
        if let NodeKind::Call(call) = &nodes[m].kind {
            if let Some(args) = &call.args {
                assert(forall|k: int|
                    0 <= k < args@.len() ==> #[trigger] call.args->0@[k] < nodes@.len());
                let mut k: usize = 0;
                while k < args.len()
                    invariant
                        self.wf(),
                        file < self.files@.len(),
                        nodes@ == self.tree(file as int),
                        nodes@[m as int].kind == NodeKind::Call(*call),
                        call.args == Some(*args),
                        k <= args@.len(),
                        forall|j: int| 0 <= j < args@.len() ==> #[trigger] args@[j] < nodes@.len(),
                        forall|j: int|
                            0 <= j < k ==> !argument_is_self_field(
                                nodes@,
                                #[trigger] args@[j] as int,
                                field@,
                            ),
                    decreases args.len() - k,
                {
                    if self.arg_targets_self_field(file, args[k], field) {
                        assert(argument_is_self_field(
                            nodes@,
                            call.args->0@[k as int] as int,
                            field@,
                        ));
                        return true;
                    }
                    k += 1;
                }
            }
        }
        false
    }

    /// Whether node `a`, an argument, is `self.field` or a reference to it.
    pub fn arg_targets_self_field(&self, file: usize, a: usize, field: &str) -> (answer: bool)
        requires
            self.wf(),
            file < self.files@.len(),
            a < self.tree(file as int).len(),
        ensures
            answer == argument_is_self_field(self.tree(file as int), a as int, field@),
    {
        let nodes = &self.files[file].nodes;
        proof {
            assert(self.tree_ok(self.tree(file as int)));
            assert(self.node_ok(nodes@, a as int));
        }
        match &nodes[a].kind {
            NodeKind::RefExpr { mutable: _, expr } => match *expr {
                Some(e) => {
                    assert(self.node_ok(nodes@, e as int));
                    let inside: Option<usize> = match &nodes[e].kind {
                        NodeKind::ParenExpr { expr } => *expr,
                        _ => Some(e),
                    };
                    match inside {
                        Some(place) => {
                            assert(self.node_ok(nodes@, place as int));
                            is_self_field_with_name(nodes, place, field)
                        },
                        None => false,
                    }
                },
                None => false,
            },
            _ => is_self_field_with_name(nodes, a, field),
        }
    }

    /// Whether node `m` calls a function that moves a value through `&mut`, and which.
    pub fn is_known_move_call(&self, file: usize, m: usize) -> (kind: Option<MovePatternKind>)
        requires
            self.wf(),
            file < self.files@.len(),
            m < self.tree(file as int).len(),
        ensures
            kind == self.move_call(self.tree(file as int), m as int),
    {
        let nodes = &self.files[file].nodes;
        proof {
            assert(self.tree_ok(self.tree(file as int)));
            assert(self.node_ok(nodes@, m as int));
        }
        match resolve_callee(nodes, m) {
            Some(f) => {
                proof {
                    let c = nodes@[m as int].kind->Call_0.callee->0;
                    assert(self.node_ok(nodes@, c as int));
                }
                let def = &self.functions[f];
                let name: &str = def.name.as_str();
                if !is_core_or_std(&def.crate_name) {
                    None
                } else if is_text(&def.module_name, "mem") && same_text(name, "replace") {
                    Some(MovePatternKind::MemReplace)
                } else if is_text(&def.module_name, "mem") && same_text(name, "swap") {
                    Some(MovePatternKind::MemSwap)
                } else if is_text(&def.module_name, "mem") && same_text(name, "take") {
                    Some(MovePatternKind::MemTake)
                } else if is_text(&def.module_name, "ptr") && same_text(name, "read") {
                    Some(MovePatternKind::PtrRead)
                } else {
                    None
                }
            },
            None => None,
        }
    }
}

/// Classifies how node `m`, a field expression, is used.
pub fn classify_field_use_context(nodes: &Vec<Node>, m: usize) -> (context: FieldUseContext)
    requires
        m < nodes@.len(),
        parents_ok(nodes@),
        forall|c: int|
            0 <= c < nodes@.len() ==> (#[trigger] nodes@[c].kind matches NodeKind::Call(call) ==> (
            call.callee matches Some(callee) ==> callee < nodes@.len())),
    ensures
        context == use_context(nodes@, m),
{
    assert(parent_ok(nodes@, m as int));
    let parent: usize = match nodes[m].parent {
        Some(p) => p,
        None => {
            return FieldUseContext::Other;
        },
    };
    assert(parent_ok(nodes@, parent as int));
    let in_parens: bool = match &nodes[parent].kind {
        NodeKind::ParenExpr { expr: _ } => true,
        _ => false,
    };
    let around: usize = match nodes[parent].parent {
        Some(p) if in_parens => p,
        _ => parent,
    };
    assert(parent_ok(nodes@, around as int));
    match &nodes[around].kind {
        NodeKind::RefExpr { mutable: _, expr } => {
            if *expr == Some(m) || in_parens && *expr == Some(parent) {
                FieldUseContext::Borrow
            } else {
                FieldUseContext::Other
            }
        },
        NodeKind::BinExpr { op, lhs } => {
            if *op == Some(BinaryOp::Assignment) && (*lhs == Some(m) || in_parens && *lhs == Some(
                parent,
            )) {
                FieldUseContext::Assignment
            } else {
                FieldUseContext::Other
            }
        },
        NodeKind::MethodCall(call) => {
            if call.receiver == Some(m) || in_parens && call.receiver == Some(parent) {
                FieldUseContext::MethodReceiver
            } else {
                FieldUseContext::Other
            }
        },
        NodeKind::ArgList => match nodes[around].parent {
            Some(c) if is_constructor_call(nodes, c) => FieldUseContext::DirectMove,
            _ => FieldUseContext::PassedAsArgument,
        },
        NodeKind::LetStmt => FieldUseContext::DirectMove,
        NodeKind::ReturnExpr => FieldUseContext::DirectMove,
        NodeKind::TupleExpr => FieldUseContext::DirectMove,
        NodeKind::RecordExprField => FieldUseContext::DirectMove,
        _ => FieldUseContext::Other,
    }
}

/// Whether node `m` is the expression `self.field`.
pub fn is_self_field_with_name(nodes: &Vec<Node>, m: usize, field: &str) -> (answer: bool)
    requires
        m < nodes@.len(),
        nodes@[m as int].kind matches NodeKind::Field(access) ==> (access.expr matches Some(e) ==> e
            < nodes@.len()),
    ensures
        answer == self_field(nodes@, m as int, field@),
{
    match &nodes[m].kind {
        NodeKind::Field(access) => is_text(&access.name, field) && (match access.expr {
            Some(e) => is_self_expr(nodes, e),
            None => false,
        }),
        _ => false,
    }
}

/// Builds the diagnostic for a field that `drop` moves.
pub fn build_move_diagnostic(
    file_id: u32,
    field: &str,
    site: TextRange,
    kind: MovePatternKind,
) -> (diagnostic: Diagnostic)
    ensures
        diagnostic@ == move_diagnostic(file_id, field@, site, kind),
{
    let message: String = "structurally pinned field `".to_owned().concat(field).concat("` is ").concat(
        kind.describe(),
    ).concat(
        " in `Drop::drop`. This breaks the pin guarantee: pinned values must remain at the same memory location until their destructor runs to completion. Either leave this field untouched in `drop`, or migrate the type to `pin-project` (which generates a sound `Drop`).",
    );
    Diagnostic::new(
        "pin-drop-moves-pinned-field",
        Severity::Warning,
        message,
        FileRange { file_id, range: site },
    )
}

} // verus!
