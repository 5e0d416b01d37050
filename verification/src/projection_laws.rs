//! What counts as a projection, and what the check for consistency says about projections, from
//! the methods as they are written and resolved.

use vstd::prelude::*;

use crate::diagnostic::{DiagnosticView, Severity};
use crate::laws::lemma_filter_map_contains;
use crate::pin_consistency::{
    all_recorded, by_field, chain_root, entry_fields, inconsistencies, inconsistency,
    lemma_by_field_fields, lemma_recorded_by_field, mut_ref_to_self, projected_fields, recorded, sites_of,
    Bucket, EntryView, Projection, SiteView, TraitKind,
};
use crate::sequences::{
    concat_map, indices, lemma_concat_map_contains, lemma_concat_map_step, lemma_prefix,
    lemma_total_length, total_length,
};
use crate::text::lemma_with_elements;
use crate::tree::{lemma_subtree_bounds, subtree, within};
use crate::workspace::{
    AdtKind, AssocItem, FieldAccess, FileRange, FnContainer, FnItem, GenericArg, ImplItem,
    MethodCall, Node, NodeKind, Resolution, TypeKind, TypeSyntax, Workspace,
};

verus! {

// ---------------------------------------------------------------------------
// Methods
// ---------------------------------------------------------------------------

/// A method takes part exactly when the type after `self:` is a path to the `Pin` of `core` or
/// `std` that has `&mut Self` among its arguments, at whatever place.
pub proof fn law_takes_pin_mut_self(workspace: Workspace, function: FnItem)
    ensures
        workspace.takes_pin_mut_self(function) <==> ({
            &&& function.self_param_type matches Some(ty)
            &&& ty.kind matches TypeKind::Path(Some(path))
            &&& path.resolution matches Some(Resolution::Adt(adt))
            &&& workspace.adts@[adt as int].kind == AdtKind::Struct
            &&& workspace.adts@[adt as int].name@ == "Pin"@
            &&& workspace.adts@[adt as int].module_name matches Some(pin_module)
            &&& pin_module@ == "pin"@
            &&& workspace.adts@[adt as int].crate_name matches Some(pin_crate)
            &&& (pin_crate@ == "core"@ || pin_crate@ == "std"@)
            &&& path.segment matches Some(segment)
            &&& segment.generic_args matches Some(args)
            &&& exists|k: int|
                    0 <= k < args@.len() && (#[trigger] args@[k] matches GenericArg::Type(Some(arg)) && (
                    arg.kind matches TypeKind::Ref { mutable: true, inner: Some(inner) } && (
                    inner.kind matches TypeKind::Path(Some(target)) && (target.segment matches Some(last) && (
                    last.name matches Some(name) && name@ == "Self"@)))))
        }),
{
    if function.self_param_type is Some && function.self_param_type->0.kind is Path
        && function.self_param_type->0.kind->Path_0 is Some {
        let path = function.self_param_type->0.kind->Path_0->0;
        if path.segment is Some && path.segment->0.generic_args is Some {
            let args = path.segment->0.generic_args->0;
            assert forall|k: int| 0 <= k < args@.len() implies mut_ref_to_self(#[trigger] args@[k])
                == (args@[k] matches GenericArg::Type(Some(arg)) && (arg.kind matches TypeKind::Ref {
                mutable: true,
                inner: Some(inner),
            } && (inner.kind matches TypeKind::Path(Some(target)) && (
            target.segment matches Some(last) && (last.name matches Some(name) && name@
                == "Self"@))))) by {}
        }
    }
}

// ---------------------------------------------------------------------------
// Single projections
// ---------------------------------------------------------------------------

/// A call `self.get_unchecked_mut()` of the `Pin` of `core` or `std` is a non-structural
/// projection exactly when a field is taken of it, to that field, at the field access. What the
/// field access is used for plays no part, and neither do arguments.
pub proof fn law_get_projection(
    workspace: Workspace,
    nodes: Seq<Node>,
    method: Seq<char>,
    m: usize,
    call: MethodCall,
)
    requires
        nodes[m as int].kind == NodeKind::MethodCall(call),
        call.name matches Some(name) && name@ == "get_unchecked_mut"@,
    ensures
        workspace.projection(nodes, method)(m) is Some <==> ({
            &&& call.resolved matches Some(f)
            &&& workspace.functions@[f as int].container matches FnContainer::Impl(Some(adt))
            &&& workspace.adts@[adt as int].kind == AdtKind::Struct
            &&& workspace.adts@[adt as int].name@ == "Pin"@
            &&& workspace.adts@[adt as int].module_name matches Some(pin_module)
            &&& pin_module@ == "pin"@
            &&& workspace.adts@[adt as int].crate_name matches Some(pin_crate)
            &&& (pin_crate@ == "core"@ || pin_crate@ == "std"@)
            &&& call.receiver matches Some(receiver)
            &&& nodes[receiver as int].kind matches NodeKind::PathExpr(Some(self_path))
            &&& self_path.segment matches Some(self_segment)
            &&& self_segment.name matches Some(self_name)
            &&& self_name@ == "self"@
            &&& nodes[m as int].parent matches Some(p)
            &&& nodes[p as int].kind matches NodeKind::Field(access)
            &&& access.name is Some
        }),
        workspace.projection(nodes, method)(m) matches Some(projection) ==> ({
            let p = nodes[m as int].parent->0 as int;
            &&& projection.bucket == Bucket::NonStructuralSite
            &&& projection.site.field == nodes[p].kind->Field_0.name->0@
            &&& projection.site.method == method
            &&& projection.site.range == nodes[p].range
        }),
{
    reveal_strlit("get_unchecked_mut");
    reveal_strlit("map_unchecked_mut");
    assert("get_unchecked_mut"@[0] != "map_unchecked_mut"@[0]);
}

/// A call `self.map_unchecked_mut(|place| &mut place.first...last)` of the `Pin` of `core` or
/// `std` is a structural projection to the first field of the chain, at the call. The chain has
/// at least one field; what it starts from, and further arguments, play no part.
pub proof fn law_map_projection(
    workspace: Workspace,
    nodes: Seq<Node>,
    method: Seq<char>,
    m: usize,
    call: MethodCall,
    body: usize,
    chain: Seq<usize>,
    start: usize,
)
    requires
        nodes[m as int].kind == NodeKind::MethodCall(call),
        call.name matches Some(name) && name@ == "map_unchecked_mut"@,
        ({
            &&& call.resolved matches Some(f)
            &&& workspace.functions@[f as int].container matches FnContainer::Impl(Some(adt))
            &&& workspace.adts@[adt as int].kind == AdtKind::Struct
            &&& workspace.adts@[adt as int].name@ == "Pin"@
            &&& workspace.adts@[adt as int].module_name matches Some(pin_module)
            &&& pin_module@ == "pin"@
            &&& workspace.adts@[adt as int].crate_name matches Some(pin_crate)
            &&& (pin_crate@ == "core"@ || pin_crate@ == "std"@)
            &&& call.receiver matches Some(receiver)
            &&& nodes[receiver as int].kind matches NodeKind::PathExpr(Some(self_path))
            &&& self_path.segment matches Some(self_segment)
            &&& self_segment.name matches Some(self_name)
            &&& self_name@ == "self"@
        }),
        call.args matches Some(args) && args@.len() > 0 && nodes[args@[0] as int].kind
            == (NodeKind::Closure { body: Some(body) }),
        chain.len() > 0,
        nodes[body as int].kind == (NodeKind::RefExpr { mutable: true, expr: Some(chain[0]) }),
        forall|i: int|
            0 <= i < chain.len() ==> (#[trigger] nodes[chain[i] as int]).kind is Field && chain[i]
                < nodes.len(),
        forall|i: int|
            0 <= i < chain.len() - 1 ==> (
            #[trigger] nodes[chain[i] as int]).kind->Field_0.expr == Some(chain[i + 1]) && chain[i]
                < chain[i + 1],
        nodes[chain.last() as int].kind->Field_0.expr == Some(start),
        !(nodes[start as int].kind is Field),
    ensures
        nodes[chain.last() as int].kind->Field_0.name matches Some(field)
            ==> workspace.projection(nodes, method)(m) == Some(
            (Projection {
                site: SiteView { field: field@, method, range: nodes[m as int].range },
                bucket: Bucket::StructuralSite,
            }),
        ),
        nodes[chain.last() as int].kind->Field_0.name is None
            ==> workspace.projection(nodes, method)(m) is None,
{
    lemma_chain(nodes, chain, start);
}

/// The chain of fields from the outermost one down to where it starts.
proof fn lemma_chain(nodes: Seq<Node>, chain: Seq<usize>, start: usize)
    requires
        chain.len() > 0,
        forall|i: int|
            0 <= i < chain.len() ==> (#[trigger] nodes[chain[i] as int]).kind is Field && chain[i]
                < nodes.len(),
        forall|i: int|
            0 <= i < chain.len() - 1 ==> (
            #[trigger] nodes[chain[i] as int]).kind->Field_0.expr == Some(chain[i + 1]) && chain[i]
                < chain[i + 1],
        nodes[chain.last() as int].kind->Field_0.expr == Some(start),
        !(nodes[start as int].kind is Field),
    ensures
        chain_root(nodes, chain[0] as int) == (match nodes[chain.last() as int].kind->Field_0.name {
            Some(name) => Some(name@),
            None => None,
        }),
    decreases chain.len(),
{
    assert(nodes[chain[0] as int].kind is Field);
    if chain.len() > 1 {
        let rest = chain.drop_first();
        assert(nodes[chain[1] as int].kind is Field);
        assert forall|i: int| 0 <= i < rest.len() implies (
        #[trigger] nodes[rest[i] as int]).kind is Field && rest[i] < nodes.len() by {
            assert(rest[i] == chain[i + 1]);
            assert(nodes[chain[i + 1] as int].kind is Field);
        }
        assert forall|i: int| 0 <= i < rest.len() - 1 implies (
        #[trigger] nodes[rest[i] as int]).kind->Field_0.expr == Some(rest[i + 1]) && rest[i]
            < rest[i + 1] by {
            assert(rest[i] == chain[i + 1]);
            assert(nodes[chain[i + 1] as int].kind is Field);
        }
        assert(rest.last() == chain.last());
        lemma_chain(nodes, rest, start);
    }
}

/// Nothing else is a projection: it is a call on `self` of a method of the `Pin` of `core` or
/// `std`, written `map_unchecked_mut` or `get_unchecked_mut`; and a call of the former has as its
/// first argument a closure that borrows mutably from a field, which it starts at.
pub proof fn law_only_projections(
    workspace: Workspace,
    nodes: Seq<Node>,
    method: Seq<char>,
    m: usize,
)
    requires
        workspace.projection(nodes, method)(m) is Some,
    ensures
        ({
            &&& nodes[m as int].kind matches NodeKind::MethodCall(call)
            &&& call.resolved matches Some(f)
            &&& workspace.functions@[f as int].container matches FnContainer::Impl(Some(adt))
            &&& workspace.adts@[adt as int].kind == AdtKind::Struct
            &&& workspace.adts@[adt as int].name@ == "Pin"@
            &&& workspace.adts@[adt as int].module_name matches Some(pin_module)
            &&& pin_module@ == "pin"@
            &&& workspace.adts@[adt as int].crate_name matches Some(pin_crate)
            &&& (pin_crate@ == "core"@ || pin_crate@ == "std"@)
            &&& call.receiver matches Some(receiver)
            &&& nodes[receiver as int].kind matches NodeKind::PathExpr(Some(self_path))
            &&& self_path.segment matches Some(self_segment)
            &&& self_segment.name matches Some(self_name)
            &&& self_name@ == "self"@
            &&& call.name matches Some(name)
            &&& (name@ == "map_unchecked_mut"@ || name@ == "get_unchecked_mut"@)
            &&& name@ == "map_unchecked_mut"@ ==> ({
                &&& call.args matches Some(args)
                &&& args@.len() > 0
                &&& nodes[args@[0] as int].kind matches NodeKind::Closure { body: Some(body) }
                &&& nodes[body as int].kind matches NodeKind::RefExpr {
                    mutable: true,
                    expr: Some(e),
                }
                &&& nodes[e as int].kind is Field
            })
        }),
{
}

/// Two chains that meet in a field borrow from the same field: what is taken of a field below the
/// first one plays no part.
pub proof fn law_chain_step(
    nodes: Seq<Node>,
    outer: int,
    access: FieldAccess,
    inner: usize,
)
    requires
        nodes[outer].kind == NodeKind::Field(access),
        access.expr == Some(inner),
        outer < inner < nodes.len(),
        nodes[inner as int].kind is Field,
    ensures
        chain_root(nodes, outer) == chain_root(nodes, inner as int),
{
}

// ---------------------------------------------------------------------------
// The projections of an impl
// ---------------------------------------------------------------------------

/// The projections of an impl are those of its methods, in the order of the methods and, in each,
/// in document order: one more member adds the projections of its body at the end, under its
/// name, if it is a method that takes part, and nothing otherwise.
pub proof fn law_one_more_member(
    workspace: Workspace,
    nodes: Seq<Node>,
    item: ImplItem,
    more: ImplItem,
    unnamed: Seq<char>,
    member: AssocItem,
)
    requires
        item.items matches Some(items) && (more.items matches Some(more_items) && more_items@
            == items@.push(member)),
    ensures
        workspace.impl_projections(nodes, more, unnamed) == workspace.impl_projections(
            nodes,
            item,
            unnamed,
        ) + (match member {
            AssocItem::FnItem(f) => match nodes[f as int].kind {
                NodeKind::FnItem(function) => if function.body is Some
                    && workspace.takes_pin_mut_self(function) {
                    subtree(nodes, function.body->0).filter_map(
                        workspace.projection(
                            nodes,
                            match function.name {
                                Some(name) => name@,
                                None => unnamed,
                            },
                        ),
                    )
                } else {
                    Seq::empty()
                },
                _ => Seq::empty(),
            },
            AssocItem::Other => Seq::empty(),
        }),
{
    let items = item.items->0@;
    let part = workspace.member_projections(nodes, unnamed);
    assert(items.push(member).drop_last() =~= items);
    assert(concat_map(items.push(member), part) == concat_map(items, part) + part(member));
}

/// An impl without members, or without braces, makes no projections.
pub proof fn law_no_members(
    workspace: Workspace,
    nodes: Seq<Node>,
    item: ImplItem,
    unnamed: Seq<char>,
)
    requires
        item.items matches Some(items) ==> items@.len() == 0,
    ensures
        workspace.impl_projections(nodes, item, unnamed).len() == 0,
{
}

/// Every projection in the body of a method that takes part is one of the impl, whichever member
/// the method is and wherever in the body the projection stands.
pub proof fn law_projection_is_found(
    workspace: Workspace,
    nodes: Seq<Node>,
    item: ImplItem,
    unnamed: Seq<char>,
    k: int,
    f: usize,
    function: FnItem,
    body: usize,
    m: usize,
    projection: Projection,
)
    requires
        nodes.len() <= usize::MAX,
        item.items matches Some(items) && 0 <= k < items@.len() && items@[k] == AssocItem::FnItem(f),
        nodes[f as int].kind == NodeKind::FnItem(function),
        workspace.takes_pin_mut_self(function),
        function.body == Some(body),
        m < nodes.len(),
        within(nodes, m as int, body as int),
        workspace.projection(
            nodes,
            match function.name {
                Some(name) => name@,
                None => unnamed,
            },
        )(m) == Some(projection),
    ensures
        workspace.impl_projections(nodes, item, unnamed).contains(projection),
{
    let items = item.items->0@;
    let part = workspace.member_projections(nodes, unnamed);
    let name = match function.name {
        Some(name) => name@,
        None => unnamed,
    };
    let pick = workspace.projection(nodes, name);
    let list = subtree(nodes, body);
    lemma_subtree_bounds(nodes, body);
    assert(list.contains(m));
    let i = choose|i: int| 0 <= i < list.len() && list[i] == m;
    assert(pick(list[i]) == Some(projection));
    lemma_filter_map_contains(list, pick, projection);
    assert(part(items[k]).contains(projection));
    lemma_concat_map_contains(items, part, projection);
}

// ---------------------------------------------------------------------------
// Inconsistent projections
// ---------------------------------------------------------------------------

/// A non-structural projection to a field that the impl also projects to structurally is
/// reported at its place, with the first structural method as the example.
pub proof fn law_inconsistency_names_the_first(
    workspace: Workspace,
    file: int,
    item: ImplItem,
    i: int,
    j: int,
)
    requires
        ({
            let projections = workspace.impl_projections(
                workspace.files@[file].nodes@,
                item,
                "<unnamed>"@,
            );
            &&& 0 <= i < projections.len()
            &&& 0 <= j < projections.len()
            &&& projections[i].bucket == Bucket::NonStructuralSite
            &&& projections[j].bucket == Bucket::StructuralSite
            &&& projections[i].site.field == projections[j].site.field
            &&& forall|k: int|
                0 <= k < j ==> !((#[trigger] projections[k]).bucket == Bucket::StructuralSite
                    && projections[k].site.field == projections[j].site.field)
        }),
    ensures
        ({
            let projections = workspace.impl_projections(
                workspace.files@[file].nodes@,
                item,
                "<unnamed>"@,
            );
            workspace.inconsistent_in(file, item).contains(
                DiagnosticView {
                    code: "pin-inconsistent-projection"@,
                    severity: Severity::Warning,
                    message: "field `"@ + projections[i].site.field
                        + "` is treated as non-structurally pinned here (in `"@ + projections[i].site.method
                        + "`), but as structurally pinned elsewhere (e.g. in `"@ + projections[j].site.method
                        + "`). This inconsistency is unsound: one site relies on the pin guarantee while the other has broken it."@,
                    range: FileRange { file_id: workspace.files@[file].file_id, range: projections[i].site.range },
                    fixes: None,
                },
            )
        }),
{
    let projections = workspace.impl_projections(workspace.tree(file), item, "<unnamed>"@);
    let file_id = workspace.files@[file].file_id;
    let field = projections[i].site.field;
    let fields = projected_fields(projections);
    assert(fields[i] == field);
    lemma_with_elements(Seq::empty(), fields);
    lemma_by_field_fields(projections);
    let entries = by_field(projections);
    assert(entry_fields(entries).contains(field));
    let e = choose|e: int| 0 <= e < entry_fields(entries).len() && entry_fields(entries)[e] == field;
    let entry = entries[e];
    let pick_here = sites_of(field, Bucket::NonStructuralSite);
    let pick_there = sites_of(field, Bucket::StructuralSite);
    assert(entry.field == field);
    assert(entry.structural == projections.filter_map(pick_there));
    assert(entry.non_structural == projections.filter_map(pick_here));
    assert(pick_here(projections[i]) == Some(projections[i].site));
    lemma_filter_map_contains(projections, pick_here, projections[i].site);
    assert forall|k: int| 0 <= k < j implies #[trigger] pick_there(projections[k]) is None by {
        assert(!(projections[k].bucket == Bucket::StructuralSite && projections[k].site.field
            == projections[j].site.field));
    }
    lemma_filter_map_first(projections, pick_there, j);
    let n = choose|n: int|
        0 <= n < entry.non_structural.len() && entry.non_structural[n] == projections[i].site;
    let made = entry.non_structural.map_values(inconsistency(file_id, entry));
    let diagnostic = inconsistency(file_id, entry)(projections[i].site);
    assert(made[n] == diagnostic);
    assert(inconsistencies(file_id)(entries[e]).contains(diagnostic));
    lemma_concat_map_contains(entries, inconsistencies(file_id), diagnostic);
}

/// A selection begins with the result of the first element that has one.
pub proof fn lemma_filter_map_first<A, B>(list: Seq<A>, f: spec_fn(A) -> Option<B>, j: int)
    requires
        0 <= j < list.len(),
        f(list[j]) is Some,
        forall|k: int| 0 <= k < j ==> #[trigger] f(list[k]) is None,
    ensures
        list.filter_map(f).len() > 0,
        list.filter_map(f)[0] == f(list[j])->0,
    decreases list.len(),
{
    let front = list.drop_last();
    if j < front.len() {
        assert forall|k: int| 0 <= k < j implies #[trigger] f(front[k]) is None by {
            assert(f(list[k]) is None);
        }
        assert(front[j] == list[j]);
        lemma_filter_map_first(front, f, j);
    } else {
        assert forall|k: int| 0 <= k < front.len() implies #[trigger] f(front[k]) is None by {
            assert(f(list[k]) is None);
        }
        crate::laws::lemma_filter_map_empty(front, f);
    }
}

/// What is reported of an impl as inconsistent is a non-structural projection, with the text for
/// it, to a field that the impl also projects to structurally.
pub proof fn law_inconsistency_text(
    workspace: Workspace,
    file: int,
    item: ImplItem,
    diagnostic: DiagnosticView,
)
    requires
        workspace.inconsistent_in(file, item).contains(diagnostic),
    ensures
        ({
            let projections = workspace.impl_projections(
                workspace.files@[file].nodes@,
                item,
                "<unnamed>"@,
            );
            exists|i: int, j: int|
                0 <= i < projections.len() && 0 <= j < projections.len()
                    && (#[trigger] projections[i]).bucket == Bucket::NonStructuralSite && (
                #[trigger] projections[j]).bucket == Bucket::StructuralSite
                    && projections[i].site.field == projections[j].site.field && diagnostic == (
                DiagnosticView {
                    code: "pin-inconsistent-projection"@,
                    severity: Severity::Warning,
                    message: "field `"@ + projections[i].site.field
                        + "` is treated as non-structurally pinned here (in `"@ + projections[i].site.method
                        + "`), but as structurally pinned elsewhere (e.g. in `"@ + projections[j].site.method
                        + "`). This inconsistency is unsound: one site relies on the pin guarantee while the other has broken it."@,
                    range: FileRange { file_id: workspace.files@[file].file_id, range: projections[i].site.range },
                    fixes: None,
                })
        }),
{
    let projections = workspace.impl_projections(workspace.tree(file), item, "<unnamed>"@);
    crate::laws::law_inconsistency_is_real(workspace, file, item, diagnostic);
    let (i, j) = choose|i: int, j: int|
        0 <= i < projections.len() && 0 <= j < projections.len()
            && #[trigger] crate::laws::conflict(projections[i], projections[j]) && diagnostic
            == crate::laws::conflict_diagnostic(
            workspace.files@[file].file_id,
            projections[i],
            projections[j],
        );
    assert(projections[i].bucket == Bucket::NonStructuralSite);
    assert(projections[j].bucket == Bucket::StructuralSite);
}

/// Every inherent impl of a file is looked at, and no trait impl: what the check of the file says
/// about projections is what the inherent impls give, in document order.
pub proof fn law_inherent_impls_in_order(workspace: Workspace, file: int, m: usize)
    requires
        m < workspace.files@[file].nodes@.len(),
    ensures
        ({
            let before = concat_map(indices(m as nat), workspace.inconsistent_at(file));
            let here = match workspace.files@[file].nodes@[m as int].kind {
                NodeKind::Impl(item) => if item.trait_type is None {
                    workspace.inconsistent_in(file, item)
                } else {
                    Seq::empty()
                },
                _ => Seq::empty(),
            };
            before + here =~= workspace.inconsistent_projections(file).take(
                (before + here).len() as int,
            )
        }),
{
    let nodes = workspace.files@[file].nodes@;
    assert(nodes.len() == workspace.files@[file].nodes.len());
    lemma_prefix(nodes.len(), workspace.inconsistent_at(file), (m + 1) as nat);
    lemma_concat_map_step(indices(nodes.len()), workspace.inconsistent_at(file), m as int);
    assert(indices(nodes.len()).take(m as int) =~= indices(m as nat));
    assert(indices(nodes.len()).take(m + 1) =~= indices((m + 1) as nat));
    assert(indices(nodes.len())[m as int] == m);
}

/// The check of a file says nothing about projections but what its nodes give, each once.
pub proof fn law_inconsistencies_total(workspace: Workspace, file: int)
    ensures
        workspace.inconsistent_projections(file).len() == total_length(
            indices(workspace.files@[file].nodes@.len()),
            workspace.inconsistent_at(file),
        ),
{
    lemma_total_length(
        indices(workspace.files@[file].nodes@.len()),
        workspace.inconsistent_at(file),
    );
}

// ---------------------------------------------------------------------------
// Grouping
// ---------------------------------------------------------------------------

/// Recording a projection adds its site at the end of the list for its field and its way of
/// projecting, and changes no other list; a field without an entry gets one at the end.
pub proof fn law_recorded(table: Seq<EntryView>, projection: Projection, k: int)
    ensures
        ({
            let after = recorded(table, projection);
            let field = projection.site.field;
            let known = exists|i: int| 0 <= i < table.len() && (#[trigger] table[i]).field == field;
            &&& after.len() == table.len() + (if known {
                0int
            } else {
                1
            })
            &&& 0 <= k < table.len() ==> ({
                &&& after[k].field == table[k].field
                &&& after[k].structural == (if table[k].field == field && projection.bucket
                    == Bucket::StructuralSite {
                    table[k].structural.push(projection.site)
                } else {
                    table[k].structural
                })
                &&& after[k].non_structural == (if table[k].field == field && projection.bucket
                    == Bucket::NonStructuralSite {
                    table[k].non_structural.push(projection.site)
                } else {
                    table[k].non_structural
                })
            })
            &&& !known ==> ({
                &&& after.last().field == field
                &&& after.last().structural == (if projection.bucket == Bucket::StructuralSite {
                    seq![projection.site]
                } else {
                    Seq::empty()
                })
                &&& after.last().non_structural == (if projection.bucket
                    == Bucket::NonStructuralSite {
                    seq![projection.site]
                } else {
                    Seq::empty()
                })
            })
        }),
{
    let field = projection.site.field;
    let fields = entry_fields(table);
    assert(fields.contains(field) == exists|i: int|
        0 <= i < table.len() && (#[trigger] table[i]).field == field) by {
        if fields.contains(field) {
            let i = choose|i: int| 0 <= i < fields.len() && fields[i] == field;
            assert(table[i].field == field);
        }
        if exists|i: int| 0 <= i < table.len() && (#[trigger] table[i]).field == field {
            let i = choose|i: int| 0 <= i < table.len() && (#[trigger] table[i]).field == field;
            assert(fields[i] == field);
        }
    }
    assert(Seq::<SiteView>::empty().push(projection.site) =~= seq![projection.site]);
}

/// Grouping builds up from nothing, one recorded projection after the other; recording several
/// is recording them one by one.
pub proof fn law_grouping_step(
    projections: Seq<Projection>,
    next: Projection,
    table: Seq<EntryView>,
)
    ensures
        by_field(Seq::empty()).len() == 0,
        by_field(projections.push(next)) == recorded(by_field(projections), next),
        all_recorded(table, Seq::empty()) == table,
        all_recorded(table, projections.push(next)) == recorded(
            all_recorded(table, projections),
            next,
        ),
{
    lemma_recorded_by_field(projections, next);
    assert(projections.push(next).drop_last() =~= projections);
}

/// A field with a structural site is reported once for each of its non-structural sites, in their
/// order; a field without one is not reported.
pub proof fn law_entry_is_reported(file_id: u32, entry: EntryView, k: int)
    ensures
        entry.structural.len() == 0 ==> inconsistencies(file_id)(entry).len() == 0,
        entry.structural.len() > 0 ==> inconsistencies(file_id)(entry).len()
            == entry.non_structural.len() && (0 <= k < entry.non_structural.len()
            ==> inconsistencies(file_id)(entry)[k] == (DiagnosticView {
            code: "pin-inconsistent-projection"@,
            severity: Severity::Warning,
            message: "field `"@ + entry.field
                + "` is treated as non-structurally pinned here (in `"@
                + entry.non_structural[k].method
                + "`), but as structurally pinned elsewhere (e.g. in `"@
                + entry.structural[0].method
                + "`). This inconsistency is unsound: one site relies on the pin guarantee while the other has broken it."@,
            range: FileRange { file_id, range: entry.non_structural[k].range },
            fixes: None,
        })),
{
}

/// The fields of an impl are reported one after the other, in the order of their first
/// projection, and nothing else is.
pub proof fn law_entries_in_order(workspace: Workspace, file: int, item: ImplItem)
    ensures
        workspace.inconsistent_in(file, item) == concat_map(
            by_field(
                workspace.impl_projections(workspace.files@[file].nodes@, item, "<unnamed>"@),
            ),
            inconsistencies(workspace.files@[file].file_id),
        ),
{
}

/// Grouping keeps every site: the sites of an entry are the projections to its field in one of
/// the two ways, in their order; every field that is projected to has one entry.
pub proof fn law_by_field(projections: Seq<Projection>, i: int)
    requires
        0 <= i < projections.len(),
    ensures
        exists|e: int|
            0 <= e < by_field(projections).len() && ({
                let entry = #[trigger] by_field(projections)[e];
                &&& entry.field == projections[i].site.field
                &&& projections[i].bucket == Bucket::StructuralSite ==> entry.structural.contains(
                    projections[i].site,
                )
                &&& projections[i].bucket == Bucket::NonStructuralSite
                    ==> entry.non_structural.contains(projections[i].site)
            }),
        forall|a: int, b: int|
            0 <= a < b < by_field(projections).len() ==> (#[trigger] by_field(projections)[a]).field
                != (#[trigger] by_field(projections)[b]).field,
{
    let field = projections[i].site.field;
    let entries = by_field(projections);
    let fields = projected_fields(projections);
    assert(fields[i] == field);
    lemma_with_elements(Seq::empty(), fields);
    lemma_by_field_fields(projections);
    assert(entry_fields(entries).contains(field));
    let e = choose|e: int| 0 <= e < entry_fields(entries).len() && entry_fields(entries)[e] == field;
    let pick = sites_of(field, projections[i].bucket);
    assert(pick(projections[i]) == Some(projections[i].site));
    lemma_filter_map_contains(projections, pick, projections[i].site);
    assert(entries[e].field == field);
    assert forall|a: int, b: int| 0 <= a < b < entries.len() implies (#[trigger] entries[a]).field
        != (#[trigger] entries[b]).field by {
        assert(entry_fields(entries)[a] != entry_fields(entries)[b]);
    }
}

// ---------------------------------------------------------------------------
// Structurally pinned fields and the impls that are checked against them
// ---------------------------------------------------------------------------

/// A field that a method of an inherent impl projects to structurally is structurally pinned for
/// the type that the impl is for, wherever in the file the impl stands.
pub proof fn law_pinned_field_is_found(
    workspace: Workspace,
    file: int,
    adt: usize,
    p: int,
    item: ImplItem,
    self_type: TypeSyntax,
    i: int,
)
    requires
        0 <= p < workspace.files@[file].nodes@.len(),
        workspace.files@[file].nodes@[p].kind == NodeKind::Impl(item),
        item.trait_type is None,
        item.self_type == Some(self_type),
        self_type.kind matches TypeKind::Path(Some(path)) && path.resolution == Some(
            Resolution::Adt(adt),
        ),
        0 <= i < workspace.impl_projections(workspace.files@[file].nodes@, item, ""@).len(),
        workspace.impl_projections(workspace.files@[file].nodes@, item, ""@)[i].bucket
            == Bucket::StructuralSite,
    ensures
        workspace.structural_fields(workspace.files@[file].nodes@, adt).contains(
            workspace.impl_projections(
                workspace.files@[file].nodes@,
                item,
                ""@,
            )[i].site.field,
        ),
{
    let nodes = workspace.tree(file);
    let field = workspace.impl_projections(nodes, item, ""@)[i].site.field;
    crate::laws::law_structural_fields(workspace, file, adt, field);
    assert(crate::laws::pins_field(workspace, nodes, adt, p, i, field));
}

/// A structurally pinned field of a type is one that a method of an inherent impl of that type,
/// in the file, projects to structurally.
pub proof fn law_only_pinned_fields(
    workspace: Workspace,
    file: int,
    adt: usize,
    field: Seq<char>,
) -> (found: (int, int))
    requires
        workspace.structural_fields(workspace.files@[file].nodes@, adt).contains(field),
    ensures
        ({
            let nodes = workspace.files@[file].nodes@;
            &&& 0 <= found.0 < nodes.len()
            &&& nodes[found.0].kind matches NodeKind::Impl(item)
            &&& item.trait_type is None
            &&& item.self_type matches Some(ty)
            &&& ty.kind matches TypeKind::Path(Some(path))
            &&& path.resolution == Some(Resolution::Adt(adt))
            &&& 0 <= found.1 < workspace.impl_projections(nodes, item, ""@).len()
            &&& workspace.impl_projections(nodes, item, ""@)[found.1].bucket
                == Bucket::StructuralSite
            &&& workspace.impl_projections(nodes, item, ""@)[found.1].site.field == field
        }),
{
    let nodes = workspace.tree(file);
    crate::laws::law_structural_fields(workspace, file, adt, field);
    let (p, i) = choose|p: int, i: int|
        0 <= p < nodes.len() && #[trigger] crate::laws::pins_field(
            workspace,
            nodes,
            adt,
            p,
            i,
            field,
        );
    (p, i)
}

/// A trait impl is checked as one of `Drop`, or of `Unpin`, exactly when its trait is a path to a
/// trait of that name in `core`, `std` or `alloc`.
pub proof fn law_trait_kind(workspace: Workspace, ty: TypeSyntax)
    ensures
        workspace.trait_kind(ty) == Some(TraitKind::Drop) <==> ({
            &&& ty.kind matches TypeKind::Path(Some(path))
            &&& path.resolution matches Some(Resolution::Trait(t))
            &&& workspace.traits@[t as int].name@ == "Drop"@
            &&& workspace.traits@[t as int].crate_name matches Some(krate)
            &&& (krate@ == "core"@ || krate@ == "std"@ || krate@ == "alloc"@)
        }),
        workspace.trait_kind(ty) == Some(TraitKind::Unpin) <==> ({
            &&& ty.kind matches TypeKind::Path(Some(path))
            &&& path.resolution matches Some(Resolution::Trait(t))
            &&& workspace.traits@[t as int].name@ == "Unpin"@
            &&& workspace.traits@[t as int].crate_name matches Some(krate)
            &&& (krate@ == "core"@ || krate@ == "std"@ || krate@ == "alloc"@)
        }),
{
    reveal_strlit("Drop");
    reveal_strlit("Unpin");
    assert("Drop"@.len() != "Unpin"@.len());
}

} // verus!
