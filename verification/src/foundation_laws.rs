//! What holds of the notions that all checks are built on.

use vstd::prelude::*;

use crate::diagnostic::{plain_diagnostic, views, Diagnostic, Severity};
use crate::facts::{
    callee_function, closure_body, constructs, impl_header, implements, marker_module, named_adt,
    named_trait, pinned_implements, self_expr,
};
use crate::sequences::{
    concat_map, first_some, indices, lemma_concat_map_first, lemma_first_some_exists, none_before,
};
use crate::text::{
    distinct, joined, lemma_with_elements, occurs_in, text_is, texts,
};
use crate::tree::{
    lemma_subtree, lemma_subtree_bounds, lemma_subtree_sorted, parent_ok, parents_ok, subtree,
    within,
};
use crate::workspace::{
    AssocItem, Declaration, FileRange, FnContainer, ImplItem, ImplMember, MethodCall,
    Node, NodeKind, Path, PathSegment, Resolution, TextRange, TypeInfo, TypeKind,
    TypeSyntax, Workspace,
};

verus! {

// ---------------------------------------------------------------------------
// Text
// ---------------------------------------------------------------------------

/// A text occurs in every text that it was put into, wherever that was.
pub proof fn law_occurs_where_it_was_put(needle: Seq<char>, before: Seq<char>, after: Seq<char>)
    ensures
        occurs_in(needle, before + needle + after),
{
    let all = before + needle + after;
    let i = before.len() as int;
    assert(all.subrange(i, i + needle.len()) =~= needle);
}

/// A text that occurs in another one leaves a text before it and a text after it.
pub proof fn law_occurs_in_parts(needle: Seq<char>, text: Seq<char>) -> (parts: (
    Seq<char>,
    Seq<char>,
))
    requires
        occurs_in(needle, text),
    ensures
        text == parts.0 + needle + parts.1,
{
    let i = choose|i: int|
        0 <= i && i + needle.len() <= text.len() && #[trigger] text.subrange(
            i,
            i + needle.len(),
        ) == needle;
    let before = text.take(i);
    let after = text.skip(i + needle.len());
    assert(text =~= before + text.subrange(i, i + needle.len()) + after);
    (before, after)
}

/// Joining: nothing for no parts, the part for one, and each further part after the separator.
pub proof fn law_joined(parts: Seq<Seq<char>>, separator: Seq<char>, next: Seq<char>)
    ensures
        joined(Seq::empty(), separator) == Seq::<char>::empty(),
        parts.len() == 0 ==> joined(parts.push(next), separator) == next,
        parts.len() > 0 ==> joined(parts.push(next), separator) == joined(parts, separator)
            + separator + next,
{
    assert(parts.push(next).drop_last() =~= parts);
}

/// Removing repetitions keeps the elements and their order: a new element comes last, one that
/// was there before changes nothing.
pub proof fn law_distinct<A>(list: Seq<A>, next: A)
    ensures
        distinct(Seq::<A>::empty()) == Seq::<A>::empty(),
        distinct(list).no_duplicates(),
        distinct(list).contains(next) <==> list.contains(next),
        list.contains(next) ==> distinct(list.push(next)) == distinct(list),
        !list.contains(next) ==> distinct(list.push(next)) == distinct(list).push(next),
{
    lemma_with_elements(Seq::empty(), list);
    assert(list.push(next).drop_last() =~= list);
}

/// The texts of a list are those of its strings, one by one.
pub proof fn law_texts(list: Seq<String>, i: int)
    requires
        0 <= i < list.len(),
    ensures
        texts(list).len() == list.len(),
        texts(list)[i] == list[i]@,
{
}

/// A list of diagnostics says what its diagnostics say, one by one and in every part.
pub proof fn law_views(list: Seq<Diagnostic>, i: int, j: int)
    requires
        0 <= i < list.len(),
    ensures
        views(list).len() == list.len(),
        views(list)[i].code == list[i].code@,
        views(list)[i].severity == list[i].severity,
        views(list)[i].message == list[i].message@,
        views(list)[i].range == list[i].range,
        views(list)[i].fixes is Some <==> list[i].fixes is Some,
        list[i].fixes matches Some(fixes) ==> views(list)[i].fixes->0.len() == fixes@.len() && (0
            <= j < fixes@.len() ==> ({
            let said = views(list)[i].fixes->0[j];
            &&& said.id == fixes@[j].id@
            &&& said.kind == fixes@[j].kind
            &&& said.label == fixes@[j].label@
            &&& said.target == fixes@[j].target
            &&& said.replaced == fixes@[j].replaced
            &&& said.replacement == fixes@[j].replacement@
        })),
{
}

/// A diagnostic without fixes says what it was made of.
pub proof fn law_plain_diagnostic(
    code: Seq<char>,
    severity: Severity,
    message: Seq<char>,
    range: FileRange,
)
    ensures
        plain_diagnostic(code, severity, message, range).code == code,
        plain_diagnostic(code, severity, message, range).severity == severity,
        plain_diagnostic(code, severity, message, range).message == message,
        plain_diagnostic(code, severity, message, range).range == range,
        plain_diagnostic(code, severity, message, range).fixes is None,
{
}

// ---------------------------------------------------------------------------
// Sequences
// ---------------------------------------------------------------------------

/// Concatenating: nothing for no elements, and each further element adds its part at the end;
/// seen from the other side, the first element gives the first part.
pub proof fn law_concat_map<A, B>(list: Seq<A>, f: spec_fn(A) -> Seq<B>, next: A)
    ensures
        concat_map(Seq::empty(), f) == Seq::<B>::empty(),
        concat_map(list.push(next), f) == concat_map(list, f) + f(next),
        list.len() > 0 ==> concat_map(list, f) == f(list[0]) + concat_map(list.drop_first(), f),
{
    assert(list.push(next).drop_last() =~= list);
    if list.len() > 0 {
        lemma_concat_map_first(list, f);
    }
}

/// The first result: that of position `i` if nothing before gives one, and none if nothing does.
pub proof fn law_first_some<A, B>(list: Seq<A>, f: spec_fn(A) -> Option<B>, i: int)
    ensures
        0 <= i < list.len() && f(list[i]) is Some && (forall|j: int|
            0 <= j < i ==> #[trigger] f(list[j]) is None) ==> first_some(list, f) == f(list[i]),
        (forall|j: int| 0 <= j < list.len() ==> #[trigger] f(list[j]) is None) ==> first_some(
            list,
            f,
        ) is None,
{
    lemma_first_some_exists(list, f);
    if first_some(list, f) is Some {
        let k = choose|k: int|
            0 <= k < list.len() && #[trigger] f(list[k]) == first_some(list, f) && none_before(
                list,
                f,
                k,
            );
        assert(f(list[k]) is Some);
        if 0 <= i < list.len() && f(list[i]) is Some && (forall|j: int|
            0 <= j < i ==> #[trigger] f(list[j]) is None) {
            if i < k {
                assert(f(list[i]) is None);
            }
        }
    }
}

/// The numbers below a number are all of them, each at its own position.
pub proof fn law_indices(n: nat, i: int)
    requires
        n <= usize::MAX,
        0 <= i < n,
    ensures
        indices(n).len() == n,
        indices(n)[i] == i,
{
}

// ---------------------------------------------------------------------------
// Trees
// ---------------------------------------------------------------------------

/// A node lies in another one, itself included, exactly when document order has not left that one
/// in between: every node after it, up to the first, has its parent there or later.
pub proof fn law_within(nodes: Seq<Node>, m: int, n: int)
    requires
        parents_ok(nodes),
        0 <= m < nodes.len(),
        0 <= n < nodes.len(),
    ensures
        within(nodes, m, n) <==> n <= m && (forall|k: int|
            n < k <= m ==> (#[trigger] nodes[k].parent matches Some(p) && n <= p)),
{
    let end = first_outside(nodes, n, n + 1);
    lemma_subtree(nodes, n, end);
    if n <= m && (forall|k: int|
        n < k <= m ==> (#[trigger] nodes[k].parent matches Some(p) && n <= p)) {
        if end <= m {
            assert(nodes[end].parent->0 >= n);
        }
    }
}

/// The first node from `k` on whose parent stands before `n`.
proof fn first_outside(nodes: Seq<Node>, n: int, k: int) -> (end: int)
    requires
        parents_ok(nodes),
        0 <= n < k <= nodes.len(),
    ensures
        k <= end <= nodes.len(),
        forall|m: int| k <= m < end ==> (#[trigger] nodes[m].parent matches Some(p) && n <= p),
        end < nodes.len() ==> (nodes[end].parent matches Some(p) && p < n),
    decreases nodes.len() - k,
{
    if k < nodes.len() {
        assert(parent_ok(nodes, k));
        if nodes[k].parent->0 >= n {
            first_outside(nodes, n, k + 1)
        } else {
            k
        }
    } else {
        k
    }
}

/// Below a node lie exactly the nodes that have it above them, in document order.
pub proof fn law_subtree(nodes: Seq<Node>, n: usize, m: usize, i: int, j: int)
    requires
        nodes.len() <= usize::MAX,
    ensures
        subtree(nodes, n).contains(m) <==> m < nodes.len() && within(nodes, m as int, n as int),
        0 <= i < j < subtree(nodes, n).len() ==> subtree(nodes, n)[i] < subtree(nodes, n)[j],
{
    lemma_subtree_bounds(nodes, n);
    lemma_subtree_sorted(nodes, n);
    if subtree(nodes, n).contains(m) {
        let k = choose|k: int| 0 <= k < subtree(nodes, n).len() && subtree(nodes, n)[k] == m;
        assert(subtree(nodes, n)[k] < nodes.len());
    }
}

/// A tree is in order when the root has no parent and every other node continues the node before
/// it, or one of the nodes that this one lies in.
pub proof fn law_parent_ok(nodes: Seq<Node>, i: int)
    ensures
        i == 0 && nodes[0].parent is None ==> parent_ok(nodes, i),
        i > 0 && nodes[i].parent == Some((i - 1) as usize) && i <= usize::MAX ==> parent_ok(
            nodes,
            i,
        ),
        i > 0 && (nodes[i].parent matches Some(p) && p < i && within(nodes, i - 1, p as int))
            ==> parent_ok(nodes, i),
{
}

/// Every workspace is well-formed whose files are trees in order, and whose links and references
/// lead to later nodes and to entries of the tables; nothing else is asked.
pub proof fn law_well_formed(workspace: Workspace)
    requires
        forall|f: int, i: int|
            0 <= f < workspace.files@.len() && 0 <= i < workspace.files@[f].nodes@.len()
                ==> #[trigger] parent_ok(workspace.files@[f].nodes@, i),
        forall|f: int, i: int|
            #![trigger workspace.files@[f].nodes@[i]]
            0 <= f < workspace.files@.len() && 0 <= i < workspace.files@[f].nodes@.len() ==> ({
                let nodes = workspace.files@[f].nodes@;
                let later = |link: Option<usize>| link matches Some(r) ==> i < r < nodes.len();
                let resolves = |to: Option<Resolution>|
                    match to {
                        Some(Resolution::Adt(a)) => a < workspace.adts@.len(),
                        Some(Resolution::Trait(t)) => t < workspace.traits@.len(),
                        Some(Resolution::Function(g)) => g < workspace.functions@.len(),
                        _ => true,
                    };
                let known = |ty: Option<TypeSyntax>|
                    ty matches Some(t) ==> (t.kind matches TypeKind::Path(Some(p)) ==> resolves(
                        p.resolution,
                    ));
                match nodes[i].kind {
                    NodeKind::Impl(item) => {
                        &&& known(item.trait_type)
                        &&& known(item.self_type)
                        &&& forall|k: int|
                            0 <= k < item.type_params@.len() ==> (
                            (#[trigger] item.type_params@[k]).bounds matches Some(bounds)
                                ==> forall|b: int|
                                0 <= b < bounds@.len() ==> known(#[trigger] bounds@[b]))
                        &&& item.where_predicates matches Some(predicates) ==> forall|k: int|
                            0 <= k < predicates@.len() ==> (
                            (#[trigger] predicates@[k]).bounds matches Some(bounds) ==> forall|
                                b: int,
                            | 0 <= b < bounds@.len() ==> known(#[trigger] bounds@[b]))
                        &&& item.items matches Some(items) ==> forall|k: int|
                            0 <= k < items@.len() ==> (
                            #[trigger] items@[k] matches AssocItem::FnItem(g) ==> g < nodes.len()
                                && nodes[g as int].kind is FnItem)
                    },
                    NodeKind::FnItem(item) => later(item.body) && known(item.self_param_type),
                    NodeKind::MethodCall(call) => later(call.receiver) && (
                    call.args matches Some(args) ==> forall|k: int|
                        0 <= k < args@.len() ==> i < #[trigger] args@[k] < nodes.len()) && (
                    call.resolved matches Some(g) ==> g < workspace.functions@.len()),
                    NodeKind::Call(call) => later(call.callee) && (call.args matches Some(args)
                        ==> forall|k: int|
                        0 <= k < args@.len() ==> i < #[trigger] args@[k] < nodes.len()),
                    NodeKind::Field(access) => later(access.expr),
                    NodeKind::PathExpr(path) => path matches Some(p) ==> resolves(p.resolution),
                    NodeKind::RefExpr { mutable: _, expr } => later(expr),
                    NodeKind::Closure { body } => later(body),
                    NodeKind::BinExpr { op: _, lhs } => later(lhs),
                    NodeKind::ParenExpr { expr } => later(expr),
                    _ => true,
                }
            }),
        forall|a: int, k: int, j: int|
            0 <= a < workspace.adts@.len() && 0 <= k < workspace.adts@[a].impls@.len() && 0 <= j
                < workspace.adts@[a].impls@[k].items@.len() ==> (
            #[trigger] workspace.adts@[a].impls@[k].items@[j] matches ImplMember::Function(
                Some(source),
            ) ==> source.file < workspace.files@.len() && source.node
                < workspace.files@[source.file as int].nodes@.len()
                && workspace.files@[source.file as int].nodes@[source.node as int].kind is FnItem),
        forall|f: int|
            0 <= f < workspace.functions@.len() ==> (
            (#[trigger] workspace.functions@[f]).container matches FnContainer::Impl(Some(a)) ==> a
                < workspace.adts@.len()),
        forall|c: int, k: int, j: int|
            0 <= c < workspace.crates@.len() && 0 <= k < workspace.crates@[c].modules@.len() && 0
                <= j < workspace.crates@[c].modules@[k].declarations@.len() ==> (
            #[trigger] workspace.crates@[c].modules@[k].declarations@[j] matches Declaration::Trait(
                t,
            ) ==> t < workspace.traits@.len()),
    ensures
        workspace.wf(),
{
    assert forall|f: int| 0 <= f < workspace.files@.len() implies workspace.tree_ok(
        #[trigger] workspace.tree(f),
    ) by {
        let nodes = workspace.files@[f].nodes@;
        assert forall|i: int| 0 <= i < nodes.len() implies #[trigger] workspace.node_ok(
            workspace.tree(f),
            i,
        ) by {
            assert(parent_ok(nodes, i));
            assert(workspace.files@[f].nodes@[i] == nodes[i]);
            match nodes[i].kind {
                NodeKind::Impl(item) => {
                    assert forall|k: int| 0 <= k < item.type_params@.len() implies workspace.bounds_ok(
                        (#[trigger] item.type_params@[k]).bounds,
                    ) by {}
                },
                _ => {},
            }
        }
    }
    assert forall|a: int| 0 <= a < workspace.adts@.len() implies workspace.adt_ok(
        #[trigger] workspace.adts@[a],
    ) by {
        assert forall|k: int| 0 <= k < workspace.adts@[a].impls@.len() implies workspace.impl_def_ok(
            #[trigger] workspace.adts@[a].impls@[k],
        ) by {
            let imp = workspace.adts@[a].impls@[k];
            assert forall|j: int| 0 <= j < imp.items@.len() implies (
            #[trigger] imp.items@[j] matches ImplMember::Function(Some(source))
                ==> workspace.source_ok(source)) by {
                assert(workspace.adts@[a].impls@[k].items@[j] == imp.items@[j]);
            }
        }
    }
    assert forall|c: int| 0 <= c < workspace.crates@.len() implies workspace.crate_ok(
        #[trigger] workspace.crates@[c],
    ) by {
        assert forall|k: int| 0 <= k < workspace.crates@[c].modules@.len() implies workspace.module_ok(
            #[trigger] workspace.crates@[c].modules@[k],
        ) by {
            let module = workspace.crates@[c].modules@[k];
            assert forall|j: int| 0 <= j < module.declarations@.len() implies (
            #[trigger] module.declarations@[j] matches Declaration::Trait(t) ==> t
                < workspace.traits@.len()) by {
                assert(workspace.crates@[c].modules@[k].declarations@[j]
                    == module.declarations@[j]);
            }
        }
    }
}

// ---------------------------------------------------------------------------
// Names
// ---------------------------------------------------------------------------

/// A string that is there spells its own characters and no others.
pub proof fn law_text_is(text: String, wanted: Seq<char>)
    ensures
        text_is(Some(text), wanted) <==> text@ == wanted,
        !text_is(None, wanted),
{
}

/// The expression `self` is a path that ends in `self`, whatever else stands in the path.
pub proof fn law_self_expr(nodes: Seq<Node>, e: int, path: Path, segment: PathSegment, name: String)
    requires
        nodes[e].kind == NodeKind::PathExpr(Some(path)),
        path.segment == Some(segment),
        segment.name == Some(name),
    ensures
        self_expr(nodes, e) <==> name@ == "self"@,
{
}

/// The place of an impl is its keyword; without one, the whole impl.
pub proof fn law_impl_header(item: ImplItem, whole: TextRange)
    ensures
        item.impl_token matches Some(keyword) ==> impl_header(item, whole) == keyword,
        item.impl_token is None ==> impl_header(item, whole) == whole,
{
}

/// A type names a struct, enum or union, or a trait, exactly when it is a path that resolves to
/// it; how the path is written plays no part.
pub proof fn law_named_item(ty: TypeSyntax, i: usize)
    ensures
        named_adt(ty) == Some(i) <==> (ty.kind matches TypeKind::Path(Some(path))
            && path.resolution == Some(Resolution::Adt(i))),
        named_trait(ty) == Some(i) <==> (ty.kind matches TypeKind::Path(Some(path))
            && path.resolution == Some(Resolution::Trait(i))),
{
}

/// A call calls a function by path, or a constructor, exactly when its callee is a path that
/// resolves to it; how the path is written, and the arguments, play no part.
pub proof fn law_callee(nodes: Seq<Node>, m: int, f: usize)
    ensures
        callee_function(nodes, m) == Some(f) <==> (nodes[m].kind matches NodeKind::Call(call) && (
        call.callee matches Some(callee) && (nodes[callee as int].kind matches NodeKind::PathExpr(
            Some(path),
        ) && path.resolution == Some(Resolution::Function(f))))),
        constructs(nodes, m) <==> (nodes[m].kind matches NodeKind::Call(call) && (
        call.callee matches Some(callee) && (nodes[callee as int].kind matches NodeKind::PathExpr(
            Some(path),
        ) && path.resolution == Some(Resolution::Constructor)))),
{
}

/// The closure of a method call is its first argument, however many follow.
pub proof fn law_closure_body(nodes: Seq<Node>, call: MethodCall, body: usize)
    ensures
        closure_body(nodes, call) == Some(body) <==> (call.args matches Some(args) && args@.len()
            > 0 && (nodes[args@[0] as int].kind matches NodeKind::Closure { body: inner } && inner
            == Some(body))),
{
}

/// A type implements the traits that are listed for it, at whatever place; what it pins
/// implements those of its target, if it has one.
pub proof fn law_implements(ty: TypeInfo, of_trait: usize, k: int)
    ensures
        0 <= k < ty.implements@.len() && ty.implements@[k] == of_trait ==> implements(
            ty,
            of_trait,
        ),
        implements(ty, of_trait) ==> exists|j: int|
            0 <= j < ty.implements@.len() && ty.implements@[j] == of_trait,
        ty.target_implements matches Some(target) ==> (pinned_implements(ty, of_trait) <==> exists|
            j: int,
        | 0 <= j < target@.len() && target@[j] == of_trait),
        ty.target_implements is None ==> pinned_implements(ty, of_trait) == implements(
            ty,
            of_trait,
        ),
{
}

// ---------------------------------------------------------------------------
// Marker traits
// ---------------------------------------------------------------------------

/// A marker trait is found where it stands: in the first crate called `core` or `std` whose first
/// module called `marker` declares a trait of that name, at the first such declaration.
pub proof fn law_marker_trait(
    workspace: Workspace,
    name: Seq<char>,
    c: int,
    j: int,
    k: int,
    t: usize,
)
    requires
        0 <= c < workspace.crates@.len(),
        workspace.crates@[c].name matches Some(krate) && (krate@ == "core"@ || krate@ == "std"@),
        0 <= j < workspace.crates@[c].modules@.len(),
        workspace.crates@[c].modules@[j].name matches Some(module) && module@ == "marker"@,
        forall|i: int|
            0 <= i < j ==> !(
            (#[trigger] workspace.crates@[c].modules@[i]).name matches Some(module) && module@
                == "marker"@),
        0 <= k < workspace.crates@[c].modules@[j].declarations@.len(),
        workspace.crates@[c].modules@[j].declarations@[k] == Declaration::Trait(t),
        workspace.traits@[t as int].name@ == name,
        forall|i: int|
            0 <= i < k ==> !(
            #[trigger] workspace.crates@[c].modules@[j].declarations@[i] matches Declaration::Trait(
                u,
            ) && workspace.traits@[u as int].name@ == name),
        forall|d: int|
            0 <= d < c ==> !(
            (#[trigger] workspace.crates@[d]).name matches Some(krate) && (krate@ == "core"@
                || krate@ == "std"@)),
    ensures
        workspace.marker_trait(name) == Some(t),
{
    let krate = workspace.crates@[c];
    let pick = workspace.marker_of_crate(name);
    let modules = krate.modules@;
    assert forall|i: int| 0 <= i < j implies #[trigger] marker_module()(modules[i]) is None by {
        assert(workspace.crates@[c].modules@[i] == modules[i]);
    }
    law_first_some(modules, marker_module(), j);
    let declarations = modules[j].declarations@;
    let named = workspace.trait_named(name);
    assert forall|i: int| 0 <= i < k implies #[trigger] named(declarations[i]) is None by {
        assert(workspace.crates@[c].modules@[j].declarations@[i] == declarations[i]);
    }
    law_first_some(declarations, named, k);
    assert(pick(workspace.crates@[c]) == Some(t));
    assert forall|d: int| 0 <= d < c implies #[trigger] pick(workspace.crates@[d]) is None by {
        assert(workspace.crates@[d].name == workspace.crates@[d].name);
    }
    law_first_some(workspace.crates@, pick, c);
}

/// A marker trait that is found stands in a crate called `core` or `std`, in a module called
/// `marker` at the top, under its name.
pub proof fn law_marker_trait_is_declared(workspace: Workspace, name: Seq<char>, t: usize)
    requires
        workspace.marker_trait(name) == Some(t),
    ensures
        workspace.traits@[t as int].name@ == name,
        exists|c: int, j: int, k: int|
            0 <= c < workspace.crates@.len() && 0 <= j < workspace.crates@[c].modules@.len() && 0
                <= k < workspace.crates@[c].modules@[j].declarations@.len()
                && #[trigger] workspace.crates@[c].modules@[j].declarations@[k]
                == Declaration::Trait(t) && (workspace.crates@[c].name matches Some(krate) && (
            krate@ == "core"@ || krate@ == "std"@)) && (
            workspace.crates@[c].modules@[j].name matches Some(module) && module@ == "marker"@),
{
    let pick = workspace.marker_of_crate(name);
    lemma_first_some_exists(workspace.crates@, pick);
    let c = choose|c: int|
        0 <= c < workspace.crates@.len() && #[trigger] pick(workspace.crates@[c]) == Some(t)
            && none_before(workspace.crates@, pick, c);
    let modules = workspace.crates@[c].modules@;
    lemma_first_some_exists(modules, marker_module());
    let j = choose|j: int|
        0 <= j < modules.len() && #[trigger] marker_module()(modules[j]) == first_some(
            modules,
            marker_module(),
        ) && none_before(modules, marker_module(), j);
    let declarations = modules[j].declarations@;
    let named = workspace.trait_named(name);
    lemma_first_some_exists(declarations, named);
    let k = choose|k: int|
        0 <= k < declarations.len() && #[trigger] named(declarations[k]) == Some(t)
            && none_before(declarations, named, k);
    assert(workspace.crates@[c].modules@[j].declarations@[k] == Declaration::Trait(t));
}

/// A marker trait that some crate called `core` or `std` declares in its first module called
/// `marker` is found, whatever the other crates, modules and declarations are.
pub proof fn law_marker_trait_in_any_crate(
    workspace: Workspace,
    name: Seq<char>,
    c: int,
    j: int,
    k: int,
    t: usize,
)
    requires
        0 <= c < workspace.crates@.len(),
        workspace.crates@[c].name matches Some(krate) && (krate@ == "core"@ || krate@ == "std"@),
        0 <= j < workspace.crates@[c].modules@.len(),
        workspace.crates@[c].modules@[j].name matches Some(module) && module@ == "marker"@,
        forall|i: int|
            0 <= i < j ==> !(
            (#[trigger] workspace.crates@[c].modules@[i]).name matches Some(module) && module@
                == "marker"@),
        0 <= k < workspace.crates@[c].modules@[j].declarations@.len(),
        workspace.crates@[c].modules@[j].declarations@[k] == Declaration::Trait(t),
        workspace.traits@[t as int].name@ == name,
    ensures
        workspace.marker_trait(name) is Some,
{
    let krate = workspace.crates@[c];
    let pick = workspace.marker_of_crate(name);
    let modules = krate.modules@;
    assert forall|i: int| 0 <= i < j implies #[trigger] marker_module()(modules[i]) is None by {
        assert(workspace.crates@[c].modules@[i] == modules[i]);
    }
    law_first_some(modules, marker_module(), j);
    let declarations = modules[j].declarations@;
    let named = workspace.trait_named(name);
    lemma_first_some_exists(declarations, named);
    assert(named(declarations[k]) is Some);
    assert(pick(workspace.crates@[c]) is Some);
    lemma_first_some_exists(workspace.crates@, pick);
}

} // verus!
