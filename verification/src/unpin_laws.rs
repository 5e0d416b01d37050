//! Which bounds, receivers and fields count for `Unpin`, and what is said about `Unpin` impls and
//! `Pin::new_unchecked`, from the code as it is written and resolved.

use vstd::prelude::*;

use crate::diagnostic::{DiagnosticView, Severity};
use crate::laws::{
    bounds_param, bounds_type, impl_projects, law_cross_file_fields, law_unpin_bounded_types,
    lemma_filter_map_contains,
};
use crate::pin_consistency::missing_bound;
use crate::pin_unpin_analysis::{
    from_pin_macro, inside_unsafe_fn, mention, offending, pin_macro_expansion,
};
use crate::sequences::{
    concat_map, indices, lemma_concat_map_step, lemma_prefix, lemma_total_length, total_length,
};
use crate::text::{joined, occurs_in};
use crate::tree::{lemma_subtree_bounds, subtree, within};
use crate::workspace::{
    AdtKind, Call, FieldDef, FileRange, FnContainer, FnItem, FnSource, ImplItem, ImplMember, Node,
    NodeKind, Path, RecordField, Resolution, TypeKind, TypeSyntax, Workspace,
};

verus! {

// ---------------------------------------------------------------------------
// Bounds
// ---------------------------------------------------------------------------

/// A list of bounds holds `Unpin` exactly when one of them, at whatever place, is a path to a
/// trait of that name.
pub proof fn law_unpin_among(workspace: Workspace, list: Vec<Option<TypeSyntax>>)
    ensures
        workspace.unpin_among(Some(list)) <==> (exists|b: int|
                0 <= b < list@.len() && (#[trigger] list@[b] matches Some(bound) && (
                bound.kind matches TypeKind::Path(Some(bound_path)) && (
                bound_path.resolution matches Some(Resolution::Trait(bound_trait))
                    && workspace.traits@[bound_trait as int].name@ == "Unpin"@)))),
        !workspace.unpin_among(None),
{
    assert forall|b: int| 0 <= b < list@.len() implies workspace.unpin_bound(#[trigger] list@[b])
        == (list@[b] matches Some(bound) && (bound.kind matches TypeKind::Path(Some(bound_path)) && (
    bound_path.resolution matches Some(Resolution::Trait(bound_trait))
        && workspace.traits@[bound_trait as int].name@ == "Unpin"@))) by {}
    let bounds = Some(list);
    if workspace.unpin_among(bounds) {
        let b = choose|b: int|
            0 <= b < list@.len() && workspace.unpin_bound(#[trigger] bounds->0@[b]);
        assert(workspace.unpin_bound(list@[b]));
    }
    if exists|b: int|
        0 <= b < list@.len() && (#[trigger] list@[b] matches Some(bound) && (
        bound.kind matches TypeKind::Path(Some(bound_path)) && (
        bound_path.resolution matches Some(Resolution::Trait(bound_trait))
            && workspace.traits@[bound_trait as int].name@ == "Unpin"@))) {
        let b = choose|b: int|
            0 <= b < list@.len() && (#[trigger] list@[b] matches Some(bound) && (
            bound.kind matches TypeKind::Path(Some(bound_path)) && (
            bound_path.resolution matches Some(Resolution::Trait(bound_trait))
                && workspace.traits@[bound_trait as int].name@ == "Unpin"@)));
        assert(workspace.unpin_bound(bounds->0@[b]));
    }
}

/// More bounds, before, after or between, and another order, never take a bound away.
pub proof fn law_more_bounds(
    workspace: Workspace,
    list: Vec<Option<TypeSyntax>>,
    more: Vec<Option<TypeSyntax>>,
)
    requires
        workspace.unpin_among(Some(list)),
        forall|b: int| 0 <= b < list@.len() ==> more@.contains(#[trigger] list@[b]),
    ensures
        workspace.unpin_among(Some(more)),
{
    law_unpin_among(workspace, list);
    law_unpin_among(workspace, more);
    let b = choose|b: int|
        0 <= b < list@.len() && (#[trigger] list@[b] matches Some(bound) && (
        bound.kind matches TypeKind::Path(Some(bound_path)) && (
        bound_path.resolution matches Some(Resolution::Trait(bound_trait))
            && workspace.traits@[bound_trait as int].name@ == "Unpin"@)));
    assert(more@.contains(list@[b]));
    let c = choose|c: int| 0 <= c < more@.len() && more@[c] == list@[b];
    assert(more@[c] is Some);
}

/// A type counts as bounded by an impl exactly when it is a parameter with the bound, or a
/// predicate of the `where` clause gives it the bound, wherever these stand.
pub proof fn law_bounded_types(workspace: Workspace, item: ImplItem, text: Seq<char>)
    ensures
        workspace.unpin_bounded_types(item).contains(text) <==> ({
            ||| exists|k: int|
                0 <= k < item.type_params@.len() && (
                (#[trigger] item.type_params@[k]).name matches Some(name) && name@ == text) && (
                item.type_params@[k].bounds matches Some(list) && (exists|b: int|
                        0 <= b < list@.len() && (#[trigger] list@[b] matches Some(bound) && (
                        bound.kind matches TypeKind::Path(Some(bound_path)) && (
                        bound_path.resolution matches Some(Resolution::Trait(bound_trait))
                            && workspace.traits@[bound_trait as int].name@ == "Unpin"@)))))
            ||| (item.where_predicates matches Some(predicates) && exists|k: int|
                0 <= k < predicates@.len() && (
                (#[trigger] predicates@[k]).ty matches Some(ty) && ty.text@ == text) && (
                predicates@[k].bounds matches Some(list) && (exists|b: int|
                        0 <= b < list@.len() && (#[trigger] list@[b] matches Some(bound) && (
                        bound.kind matches TypeKind::Path(Some(bound_path)) && (
                        bound_path.resolution matches Some(Resolution::Trait(bound_trait))
                            && workspace.traits@[bound_trait as int].name@ == "Unpin"@))))))
        }),
{
    law_unpin_bounded_types(workspace, item, text);
    assert forall|k: int| 0 <= k < item.type_params@.len() implies bounds_param(
        workspace,
        #[trigger] item.type_params@[k],
        text,
    ) == ((item.type_params@[k].name matches Some(name) && name@ == text) && (
    item.type_params@[k].bounds matches Some(list) && (exists|b: int|
            0 <= b < list@.len() && (#[trigger] list@[b] matches Some(bound) && (
            bound.kind matches TypeKind::Path(Some(bound_path)) && (
            bound_path.resolution matches Some(Resolution::Trait(bound_trait))
                && workspace.traits@[bound_trait as int].name@ == "Unpin"@)))))) by {
        if item.type_params@[k].bounds is Some {
            law_unpin_among(workspace, item.type_params@[k].bounds->0);
        }
    }
    if item.where_predicates is Some {
        let predicates = item.where_predicates->0;
        assert forall|k: int| 0 <= k < predicates@.len() implies bounds_type(
            workspace,
            #[trigger] predicates@[k],
            text,
        ) == ((predicates@[k].ty matches Some(ty) && ty.text@ == text) && (
        predicates@[k].bounds matches Some(list) && (exists|b: int|
                0 <= b < list@.len() && (#[trigger] list@[b] matches Some(bound) && (
                bound.kind matches TypeKind::Path(Some(bound_path)) && (
                bound_path.resolution matches Some(Resolution::Trait(bound_trait))
                    && workspace.traits@[bound_trait as int].name@ == "Unpin"@)))))) by {
            if predicates@[k].bounds is Some {
                law_unpin_among(workspace, predicates@[k].bounds->0);
            }
        }
    }
}

/// A field is listed as lacking a bound exactly when it is a named field of a struct, structurally
/// pinned, whose type is a bare generic parameter that the impl does not bound; it is listed with
/// its name and type.
pub proof fn law_missing_bounds(
    workspace: Workspace,
    item: ImplItem,
    adt: usize,
    structural: Seq<Seq<char>>,
    k: int,
    field: RecordField,
    name: String,
    ty: TypeSyntax,
)
    requires
        workspace.adts@[adt as int].kind == AdtKind::Struct,
        workspace.adts@[adt as int].record_fields matches Some(fields) && 0 <= k < fields@.len()
            && fields@[k] == field,
        field.name == Some(name),
        field.ty == Some(ty),
        structural.contains(name@),
        ({
            &&& ty.kind matches TypeKind::Path(Some(path))
            &&& !path.qualified
            &&& path.segment matches Some(segment)
            &&& segment.generic_args is None
            &&& path.resolution == Some(Resolution::TypeParam)
        }),
        !workspace.unpin_bounded_types(item).contains(ty.text@),
    ensures
        workspace.missing_bounds(item, adt, structural).contains(name@ + ": "@ + ty.text@),
{
    let fields = workspace.adts@[adt as int].record_fields->0@;
    let pick = missing_bound(structural, workspace.unpin_bounded_types(item));
    assert(pick(fields[k]) == Some(name@ + ": "@ + ty.text@));
    lemma_filter_map_contains(fields, pick, name@ + ": "@ + ty.text@);
}

/// The fields that lack a bound are listed in the order of the definition, each once.
pub proof fn law_missing_bounds_in_order(
    workspace: Workspace,
    item: ImplItem,
    adt: usize,
    structural: Seq<Seq<char>>,
)
    requires
        workspace.adts@[adt as int].kind == AdtKind::Struct,
        workspace.adts@[adt as int].record_fields is Some,
    ensures
        workspace.missing_bounds(item, adt, structural)
            == workspace.adts@[adt as int].record_fields->0@.filter_map(
            |field: RecordField|
                if ({
                    &&& field.name matches Some(name)
                    &&& structural.contains(name@)
                    &&& field.ty matches Some(ty)
                    &&& !workspace.unpin_bounded_types(item).contains(ty.text@)
                    &&& ty.kind matches TypeKind::Path(Some(path))
                    &&& !path.qualified
                    &&& path.segment matches Some(segment)
                    &&& segment.generic_args is None
                    &&& path.resolution == Some(Resolution::TypeParam)
                }) {
                    Some(field.name->0@ + ": "@ + field.ty->0.text@)
                } else {
                    None
                },
        ),
{
    let listed = |field: RecordField|
        if ({
            &&& field.name matches Some(name)
            &&& structural.contains(name@)
            &&& field.ty matches Some(ty)
            &&& !workspace.unpin_bounded_types(item).contains(ty.text@)
            &&& ty.kind matches TypeKind::Path(Some(path))
            &&& !path.qualified
            &&& path.segment matches Some(segment)
            &&& segment.generic_args is None
            &&& path.resolution == Some(Resolution::TypeParam)
        }) {
            Some(field.name->0@ + ": "@ + field.ty->0.text@)
        } else {
            None
        };
    assert(listed =~= missing_bound(structural, workspace.unpin_bounded_types(item)));
}

/// What is listed as lacking a bound is such a field.
pub proof fn law_only_missing_bounds(
    workspace: Workspace,
    item: ImplItem,
    adt: usize,
    structural: Seq<Seq<char>>,
    text: Seq<char>,
) -> (k: int)
    requires
        workspace.missing_bounds(item, adt, structural).contains(text),
    ensures
        ({
            &&& workspace.adts@[adt as int].kind == AdtKind::Struct
            &&& workspace.adts@[adt as int].record_fields matches Some(fields)
            &&& 0 <= k < fields@.len()
            &&& fields@[k].name matches Some(name)
            &&& fields@[k].ty matches Some(ty)
            &&& text == name@ + ": "@ + ty.text@
            &&& structural.contains(name@)
            &&& ty.kind matches TypeKind::Path(Some(path))
            &&& !path.qualified
            &&& path.segment matches Some(segment)
            &&& segment.generic_args is None
            &&& path.resolution == Some(Resolution::TypeParam)
            &&& !workspace.unpin_bounded_types(item).contains(ty.text@)
        }),
{
    let fields = workspace.adts@[adt as int].record_fields->0@;
    let pick = missing_bound(structural, workspace.unpin_bounded_types(item));
    lemma_filter_map_contains(fields, pick, text);
    let k = choose|k: int| 0 <= k < fields.len() && #[trigger] pick(fields[k]) == Some(text);
    k
}

/// An `Unpin` impl that lacks bounds gets one diagnostic, at its keyword, which lists the fields.
pub proof fn law_missing_bounds_text(
    workspace: Workspace,
    file_id: u32,
    nodes: Seq<Node>,
    m: int,
    item: ImplItem,
    adt: usize,
    structural: Seq<Seq<char>>,
)
    requires
        nodes[m].kind == NodeKind::Impl(item),
    ensures
        workspace.unpin_diagnostics(file_id, nodes, m, adt, structural) == (
        if workspace.missing_bounds(item, adt, structural).len() > 0 {
            seq![
                DiagnosticView {
                    code: "pin-unpin-without-bounds"@,
                    severity: Severity::Warning,
                    message:
                        "`impl Unpin` on a type with structurally pinned field(s) missing the corresponding `Unpin` bound(s): `"@
                        + joined(workspace.missing_bounds(item, adt, structural), ", "@)
                        + "`. This is unsound: callers may move the outer type even though the projection assumes its pinned field stays pinned."@,
                    range: FileRange {
                        file_id,
                        range: match item.impl_token {
                            Some(keyword) => keyword,
                            None => nodes[m].range,
                        },
                    },
                    fixes: None,
                },
            ]
        } else {
            Seq::empty()
        }),
{
}

// ---------------------------------------------------------------------------
// Structurally pinned fields in all files
// ---------------------------------------------------------------------------

/// A method counts exactly when the type after `self:` is a path to the `Pin` of `core` or `std`,
/// whatever arguments and qualifiers the path has.
pub proof fn law_takes_pin(workspace: Workspace, function: FnItem)
    ensures
        workspace.takes_pin(function) <==> ({
            &&& function.self_param_type matches Some(ty)
            &&& ty.kind matches TypeKind::Path(Some(path))
            &&& path.resolution matches Some(Resolution::Adt(adt))
            &&& workspace.adts@[adt as int].kind == AdtKind::Struct
            &&& workspace.adts@[adt as int].name@ == "Pin"@
            &&& workspace.adts@[adt as int].module_name matches Some(pin_module)
            &&& pin_module@ == "pin"@
            &&& workspace.adts@[adt as int].crate_name matches Some(pin_crate)
            &&& (pin_crate@ == "core"@ || pin_crate@ == "std"@)
        }),
{
}

/// How the path of a receiver is written plays no part: two methods whose receivers resolve to
/// the same count alike.
pub proof fn law_receiver_path_plays_no_part(
    workspace: Workspace,
    function: FnItem,
    other: FnItem,
    path: Path,
    other_path: Path,
)
    requires
        function.self_param_type matches Some(ty) && ty.kind == TypeKind::Path(Some(path)),
        other.self_param_type matches Some(ty) && ty.kind == TypeKind::Path(Some(other_path)),
        path.resolution == other_path.resolution,
    ensures
        workspace.takes_pin(function) == workspace.takes_pin(other),
{
}

/// Every method that takes `self: Pin<&mut Self>` also counts for `Unpin`.
pub proof fn law_pin_mut_self_counts(workspace: Workspace, function: FnItem)
    requires
        workspace.takes_pin_mut_self(function),
    ensures
        workspace.takes_pin(function),
{
}

/// A node projects to a field, for `Unpin`, exactly when it is a call on `self` of
/// `map_unchecked_mut` of the `Pin` of `core` or `std`, with a closure that borrows that field of
/// something mutably as its first argument.
pub proof fn law_projected_field(
    workspace: Workspace,
    nodes: Seq<Node>,
    m: usize,
    field: Seq<char>,
)
    ensures
        workspace.projected_field(nodes)(m) == Some(field) <==> ({
            &&& nodes[m as int].kind matches NodeKind::MethodCall(call)
            &&& call.name matches Some(name)
            &&& name@ == "map_unchecked_mut"@
            &&& call.resolved matches Some(f)
            &&& workspace.functions@[f as int].container matches FnContainer::Impl(Some(adt))
            &&& workspace.adts@[adt as int].kind == AdtKind::Struct
            &&& workspace.adts@[adt as int].name@ == "Pin"@
            &&& workspace.adts@[adt as int].module_name matches Some(pin_module)
            &&& pin_module@ == "pin"@
            &&& workspace.adts@[adt as int].crate_name matches Some(pin_crate)
            &&& (pin_crate@ == "core"@ || pin_crate@ == "std"@)
            &&& call.receiver matches Some(receiver)
            &&& nodes[receiver as int].kind matches NodeKind::PathExpr(Some(self_path))
            &&& self_path.segment matches Some(self_segment)
            &&& self_segment.name matches Some(self_name)
            &&& self_name@ == "self"@
            &&& call.args matches Some(args)
            &&& args@.len() > 0
            &&& nodes[args@[0] as int].kind matches NodeKind::Closure { body: Some(closure) }
            &&& nodes[closure as int].kind matches NodeKind::RefExpr { mutable: true, expr: Some(place) }
            &&& nodes[place as int].kind matches NodeKind::Field(access)
            &&& access.name matches Some(field_name)
            &&& field_name@ == field
        }),
{
}

/// A field that a method of an inherent impl projects to is structurally pinned for `Unpin`: in
/// whatever file the method is, whichever impl and member it is, and wherever in its body the
/// projection stands.
pub proof fn law_cross_file_field_is_found(
    workspace: Workspace,
    adt: usize,
    k: int,
    j: int,
    source: FnSource,
    function: FnItem,
    body: usize,
    m: usize,
    field: Seq<char>,
)
    requires
        0 <= k < workspace.adts@[adt as int].impls@.len(),
        !workspace.adts@[adt as int].impls@[k].is_trait_impl,
        0 <= j < workspace.adts@[adt as int].impls@[k].items@.len(),
        workspace.adts@[adt as int].impls@[k].items@[j] == ImplMember::Function(Some(source)),
        workspace.files@[source.file as int].nodes@[source.node as int].kind == NodeKind::FnItem(
            function,
        ),
        ({
            &&& function.self_param_type matches Some(ty)
            &&& ty.kind matches TypeKind::Path(Some(path))
            &&& path.resolution matches Some(Resolution::Adt(pin))
            &&& workspace.adts@[pin as int].kind == AdtKind::Struct
            &&& workspace.adts@[pin as int].name@ == "Pin"@
            &&& workspace.adts@[pin as int].module_name matches Some(pin_module)
            &&& pin_module@ == "pin"@
            &&& workspace.adts@[pin as int].crate_name matches Some(pin_crate)
            &&& (pin_crate@ == "core"@ || pin_crate@ == "std"@)
        }),
        function.body == Some(body),
        m < workspace.files@[source.file as int].nodes@.len(),
        within(workspace.files@[source.file as int].nodes@, m as int, body as int),
        workspace.projected_field(workspace.files@[source.file as int].nodes@)(m) == Some(field),
    ensures
        workspace.cross_file_fields(adt).contains(field),
{
    let nodes = workspace.tree(source.file as int);
    let list = subtree(nodes, body);
    let pick = workspace.projected_field(nodes);
    assert(nodes.len() == workspace.files@[source.file as int].nodes.len());
    lemma_subtree_bounds(nodes, body);
    assert(list.contains(m));
    let i = choose|i: int| 0 <= i < list.len() && list[i] == m;
    assert(pick(list[i]) == Some(field));
    lemma_filter_map_contains(list, pick, field);
    assert(workspace.takes_pin(function));
    assert(impl_projects(workspace, adt, k, j, field));
    law_cross_file_fields(workspace, adt, field);
}

/// What is structurally pinned for `Unpin` is such a field.
pub proof fn law_only_cross_file_fields(
    workspace: Workspace,
    adt: usize,
    field: Seq<char>,
) -> (found: (int, int, usize))
    requires
        workspace.cross_file_fields(adt).contains(field),
    ensures
        ({
            let (k, j, m) = found;
            let imp = workspace.adts@[adt as int].impls@[k];
            &&& 0 <= k < workspace.adts@[adt as int].impls@.len()
            &&& !imp.is_trait_impl
            &&& 0 <= j < imp.items@.len()
            &&& imp.items@[j] matches ImplMember::Function(Some(source))
            &&& workspace.takes_pin(
                workspace.files@[source.file as int].nodes@[source.node as int].kind->FnItem_0,
            )
            &&& workspace.files@[source.file as int].nodes@[source.node as int].kind->FnItem_0.body
                matches Some(body)
            &&& within(workspace.files@[source.file as int].nodes@, m as int, body as int)
            &&& workspace.projected_field(workspace.files@[source.file as int].nodes@)(m) == Some(
                field,
            )
        }),
{
    law_cross_file_fields(workspace, adt, field);
    let (k, j) = choose|k: int, j: int| #[trigger] impl_projects(workspace, adt, k, j, field);
    let member = workspace.adts@[adt as int].impls@[k].items@[j];
    let source = member->Function_0->0;
    let nodes = workspace.tree(source.file as int);
    assert(nodes.len() == workspace.files@[source.file as int].nodes.len());
    let body = nodes[source.node as int].kind->FnItem_0.body->0;
    let list = subtree(nodes, body);
    let pick = workspace.projected_field(nodes);
    lemma_subtree_bounds(nodes, body);
    lemma_filter_map_contains(list, pick, field);
    let i = choose|i: int| 0 <= i < list.len() && #[trigger] pick(list[i]) == Some(field);
    (k, j, list[i])
}

// ---------------------------------------------------------------------------
// Unsound impls
// ---------------------------------------------------------------------------

/// How a field is mentioned: by its name, with a note if its type mentions `PhantomPinned`.
pub proof fn law_mention(field: FieldDef)
    ensures
        occurs_in("PhantomPinned"@, field.ty.display@) ==> mention(field) == "`"@ + field.name@
            + "` (contains `PhantomPinned`)"@,
        !occurs_in("PhantomPinned"@, field.ty.display@) ==> mention(field) == "`"@ + field.name@
            + "`"@,
{
}

/// A field makes an `Unpin` impl unsound exactly when it is structurally pinned, its type is not
/// among those that the impl bounds, and its type does not implement `Unpin`. The impl is one of a
/// trait called `Unpin` for a struct.
pub proof fn law_offenders(
    workspace: Workspace,
    item: ImplItem,
    trait_type: TypeSyntax,
    self_type: TypeSyntax,
    adt: usize,
    unpin_trait: usize,
    words: Seq<char>,
)
    requires
        item.trait_type == Some(trait_type),
        ({
            &&& trait_type.kind matches TypeKind::Path(Some(path))
            &&& path.resolution matches Some(Resolution::Trait(t))
            &&& workspace.traits@[t as int].name@ == "Unpin"@
        }),
        item.self_type == Some(self_type),
        self_type.kind matches TypeKind::Path(Some(path)) && path.resolution == Some(
            Resolution::Adt(adt),
        ),
        workspace.adts@[adt as int].kind == AdtKind::Struct,
        workspace.marker_trait("Unpin"@) == Some(unpin_trait),
    ensures
        workspace.offenders(item).contains(words) <==> exists|k: int|
            0 <= k < workspace.adts@[adt as int].fields@.len() && ({
                let field = #[trigger] workspace.adts@[adt as int].fields@[k];
                &&& workspace.cross_file_fields(adt).contains(field.name@)
                &&& !workspace.unpin_bounded_types(item).contains(field.ty.display@)
                &&& !field.ty.implements@.contains(unpin_trait)
                &&& words == mention(field)
            }),
{
    let fields = workspace.adts@[adt as int].fields@;
    let pick = offending(
        workspace.cross_file_fields(adt),
        workspace.unpin_bounded_types(item),
        unpin_trait,
    );
    assert(workspace.offenders(item) == fields.filter_map(pick));
    lemma_filter_map_contains(fields, pick, words);
    assert forall|k: int| 0 <= k < fields.len() implies (#[trigger] pick(fields[k]) == Some(words))
        == ({
        let field = fields[k];
        &&& workspace.cross_file_fields(adt).contains(field.name@)
        &&& !workspace.unpin_bounded_types(item).contains(field.ty.display@)
        &&& !field.ty.implements@.contains(unpin_trait)
        &&& words == mention(field)
    }) by {}
    if exists|k: int| 0 <= k < fields.len() && #[trigger] pick(fields[k]) == Some(words) {
        let k = choose|k: int| 0 <= k < fields.len() && #[trigger] pick(fields[k]) == Some(words);
        assert(workspace.adts@[adt as int].fields@[k] == fields[k]);
    }
    if exists|k: int|
        0 <= k < workspace.adts@[adt as int].fields@.len() && ({
            let field = #[trigger] workspace.adts@[adt as int].fields@[k];
            &&& workspace.cross_file_fields(adt).contains(field.name@)
            &&& !workspace.unpin_bounded_types(item).contains(field.ty.display@)
            &&& !field.ty.implements@.contains(unpin_trait)
            &&& words == mention(field)
        }) {
        let k = choose|k: int|
            0 <= k < workspace.adts@[adt as int].fields@.len() && ({
                let field = #[trigger] workspace.adts@[adt as int].fields@[k];
                &&& workspace.cross_file_fields(adt).contains(field.name@)
                &&& !workspace.unpin_bounded_types(item).contains(field.ty.display@)
                &&& !field.ty.implements@.contains(unpin_trait)
                &&& words == mention(field)
            });
        assert(pick(fields[k]) == Some(words));
    }
}

/// The fields that make an impl unsound are listed in the order of the definition, each once.
pub proof fn law_offenders_in_order(
    workspace: Workspace,
    item: ImplItem,
    trait_type: TypeSyntax,
    self_type: TypeSyntax,
    adt: usize,
    unpin_trait: usize,
)
    requires
        item.trait_type == Some(trait_type),
        ({
            &&& trait_type.kind matches TypeKind::Path(Some(path))
            &&& path.resolution matches Some(Resolution::Trait(t))
            &&& workspace.traits@[t as int].name@ == "Unpin"@
        }),
        item.self_type == Some(self_type),
        self_type.kind matches TypeKind::Path(Some(path)) && path.resolution == Some(
            Resolution::Adt(adt),
        ),
        workspace.adts@[adt as int].kind == AdtKind::Struct,
        workspace.marker_trait("Unpin"@) == Some(unpin_trait),
    ensures
        workspace.offenders(item) == workspace.adts@[adt as int].fields@.filter_map(
            |field: FieldDef|
                if workspace.cross_file_fields(adt).contains(field.name@)
                    && !workspace.unpin_bounded_types(item).contains(field.ty.display@)
                    && !field.ty.implements@.contains(unpin_trait) {
                    Some(mention(field))
                } else {
                    None
                },
        ),
{
    let listed = |field: FieldDef|
        if workspace.cross_file_fields(adt).contains(field.name@)
            && !workspace.unpin_bounded_types(item).contains(field.ty.display@)
            && !field.ty.implements@.contains(unpin_trait) {
            Some(mention(field))
        } else {
            None
        };
    assert(listed =~= offending(
        workspace.cross_file_fields(adt),
        workspace.unpin_bounded_types(item),
        unpin_trait,
    ));
}

/// Nothing else is found unsound: an impl of a trait called `Unpin` for a struct, where `Unpin` is
/// known.
pub proof fn law_only_unpin_impls(workspace: Workspace, item: ImplItem)
    requires
        workspace.offenders(item).len() > 0,
    ensures
        ({
            &&& item.trait_type matches Some(trait_type)
            &&& trait_type.kind matches TypeKind::Path(Some(path))
            &&& path.resolution matches Some(Resolution::Trait(t))
            &&& workspace.traits@[t as int].name@ == "Unpin"@
            &&& item.self_type matches Some(self_type)
            &&& self_type.kind matches TypeKind::Path(Some(self_path))
            &&& self_path.resolution matches Some(Resolution::Adt(adt))
            &&& workspace.adts@[adt as int].kind == AdtKind::Struct
            &&& workspace.marker_trait("Unpin"@) is Some
        }),
{
}

/// The unsound `Unpin` impls of a file are reported in document order, each once, at its keyword
/// and with the fields that make it unsound.
pub proof fn law_unsound_impls_in_order(workspace: Workspace, file: int, m: usize)
    requires
        m < workspace.files@[file].nodes@.len(),
    ensures
        ({
            let nodes = workspace.files@[file].nodes@;
            let before = concat_map(indices(m as nat), workspace.unsound_unpin_at(file));
            let here = match nodes[m as int].kind {
                NodeKind::Impl(item) => if workspace.offenders(item).len() > 0 {
                    seq![
                        DiagnosticView {
                            code: "pin-unsound-unpin-impl"@,
                            severity: Severity::Warning,
                            message: "`impl Unpin` is unsound: structurally pinned field(s) "@
                                + joined(workspace.offenders(item), ", "@)
                                + " have type(s) that are not `Unpin`. Either remove this manual `Unpin` impl (the auto-trait would correctly leave the type `!Unpin`), or add `Unpin` bounds covering each pinned field's type."@,
                            range: FileRange {
                                file_id: workspace.files@[file].file_id,
                                range: match item.impl_token {
                                    Some(keyword) => keyword,
                                    None => nodes[m as int].range,
                                },
                            },
                            fixes: None,
                        },
                    ]
                } else {
                    Seq::empty()
                },
                _ => Seq::empty(),
            };
            before + here =~= workspace.unsound_unpin_impls(file).take((before + here).len() as int)
        }),
{
    let nodes = workspace.files@[file].nodes@;
    assert(nodes.len() == workspace.files@[file].nodes.len());
    lemma_prefix(nodes.len(), workspace.unsound_unpin_at(file), (m + 1) as nat);
    lemma_concat_map_step(indices(nodes.len()), workspace.unsound_unpin_at(file), m as int);
    assert(indices(nodes.len()).take(m as int) =~= indices(m as nat));
    assert(indices(nodes.len()).take(m + 1) =~= indices((m + 1) as nat));
    assert(indices(nodes.len())[m as int] == m);
}

/// The check of a file says nothing about unsound impls but what its nodes give, each once.
pub proof fn law_unsound_impls_total(workspace: Workspace, file: int)
    ensures
        workspace.unsound_unpin_impls(file).len() == total_length(
            indices(workspace.files@[file].nodes@.len()),
            workspace.unsound_unpin_at(file),
        ),
{
    lemma_total_length(
        indices(workspace.files@[file].nodes@.len()),
        workspace.unsound_unpin_at(file),
    );
}

// ---------------------------------------------------------------------------
// `Pin::new_unchecked`
// ---------------------------------------------------------------------------

/// Outside of all functions, and directly in a function, what counts is the parent: without one
/// nothing is unsafe, in a function it is that function, and in anything else what that stands in.
pub proof fn law_inside_unsafe_fn(nodes: Seq<Node>, m: int, p: usize)
    ensures
        nodes[m].parent is None ==> !inside_unsafe_fn(nodes, m),
        nodes[m].parent == Some(p) && p < m ==> (nodes[p as int].kind matches NodeKind::FnItem(
            function,
        ) ==> inside_unsafe_fn(nodes, m) == function.is_unsafe),
        nodes[m].parent == Some(p) && p < m && !(nodes[p as int].kind is FnItem)
            ==> inside_unsafe_fn(nodes, m) == inside_unsafe_fn(nodes, p as int),
{
}

/// A call by path is reported exactly when the path resolves to `new_unchecked` of the `Pin` of
/// `core` or `std`, the closest function around it is not unsafe, and no macro call that it was
/// expanded from is known to pin soundly. The arguments play no part.
pub proof fn law_new_unchecked(
    workspace: Workspace,
    file: int,
    m: usize,
    call: Call,
    callee: usize,
    path: Path,
    f: usize,
)
    requires
        workspace.files@[file].nodes@[m as int].kind == NodeKind::Call(call),
        call.callee == Some(callee),
        workspace.files@[file].nodes@[callee as int].kind == NodeKind::PathExpr(Some(path)),
        path.resolution == Some(Resolution::Function(f)),
    ensures
        workspace.new_unchecked_at(file)(m) == (if ({
            &&& workspace.functions@[f as int].name@ == "new_unchecked"@
            &&& workspace.functions@[f as int].container matches FnContainer::Impl(Some(adt))
            &&& workspace.adts@[adt as int].kind == AdtKind::Struct
            &&& workspace.adts@[adt as int].name@ == "Pin"@
            &&& workspace.adts@[adt as int].module_name matches Some(pin_module)
            &&& pin_module@ == "pin"@
            &&& workspace.adts@[adt as int].crate_name matches Some(pin_crate)
            &&& (pin_crate@ == "core"@ || pin_crate@ == "std"@)
            &&& !inside_unsafe_fn(workspace.files@[file].nodes@, m as int)
            &&& !(exists|k: int|
                    0 <= k < call.site.expansions@.len() && (((#[trigger] call.site.expansions@[k]).defined_in matches Some(name) && (
                    name@ == "pin_project"@ || name@ == "pin_project_lite"@)) || (call.site.expansions@[k].called_in matches Some(name)
                        && (name@ == "pin_project"@ || name@ == "pin_project_lite"@ || name@ == "pin_utils"@
                        || name@ == "futures_util"@))))
        }) {
            seq![
                DiagnosticView {
                    code: "pin-new-unchecked-unjustified"@,
                    severity: Severity::WeakWarning,
                    message:
                        "`Pin::new_unchecked` is `unsafe`; the caller must guarantee that the pointee will not be moved before its drop. If pinning a heap value, prefer `Box::pin`. If pinning a stack value, prefer the `pin!` macro from `core::pin` (Rust 1.68+) or the `pin-utils` crate. Suppress this hint with `#[allow(...)]` if the safety reasoning is documented at the call site."@,
                    range: FileRange {
                        file_id: workspace.files@[file].file_id,
                        range: workspace.files@[file].nodes@[m as int].range,
                    },
                    fixes: None,
                },
            ]
        } else {
            Seq::empty()
        }),
{
    let site = call.site;
    assert forall|k: int| 0 <= k < site.expansions@.len() implies pin_macro_expansion(
        #[trigger] site.expansions@[k],
    ) == ((site.expansions@[k].defined_in matches Some(name) && (name@ == "pin_project"@ || name@
        == "pin_project_lite"@)) || (site.expansions@[k].called_in matches Some(name) && (name@
        == "pin_project"@ || name@ == "pin_project_lite"@ || name@ == "pin_utils"@ || name@
        == "futures_util"@))) by {}
    assert(from_pin_macro(site) == (exists|k: int|
            0 <= k < site.expansions@.len() && (((#[trigger] site.expansions@[k]).defined_in matches Some(name) && (
            name@ == "pin_project"@ || name@ == "pin_project_lite"@)) || (site.expansions@[k].called_in matches Some(name)
                && (name@ == "pin_project"@ || name@ == "pin_project_lite"@ || name@ == "pin_utils"@
                || name@ == "futures_util"@)))));
}

/// Nothing but a call by path to a known function is reported there.
pub proof fn law_new_unchecked_only_calls(workspace: Workspace, file: int, m: usize)
    requires
        workspace.new_unchecked_at(file)(m).len() > 0,
    ensures
        ({
            let nodes = workspace.files@[file].nodes@;
            &&& nodes[m as int].kind matches NodeKind::Call(call)
            &&& call.callee matches Some(callee)
            &&& nodes[callee as int].kind matches NodeKind::PathExpr(Some(path))
            &&& path.resolution matches Some(Resolution::Function(f))
        }),
{
}

/// The check of a file says nothing about `Pin::new_unchecked` but what its nodes give, each once.
pub proof fn law_new_unchecked_total(workspace: Workspace, file: int)
    ensures
        workspace.new_unchecked_calls(file).len() == total_length(
            indices(workspace.files@[file].nodes@.len()),
            workspace.new_unchecked_at(file),
        ),
{
    lemma_total_length(
        indices(workspace.files@[file].nodes@.len()),
        workspace.new_unchecked_at(file),
    );
}

/// The calls of `Pin::new_unchecked` of a file are reported in document order.
pub proof fn law_new_unchecked_in_order(workspace: Workspace, file: int, m: usize)
    requires
        m < workspace.files@[file].nodes@.len(),
    ensures
        ({
            let before = concat_map(indices(m as nat), workspace.new_unchecked_at(file));
            let here = workspace.new_unchecked_at(file)(m);
            before + here =~= workspace.new_unchecked_calls(file).take((before + here).len() as int)
        }),
{
    let nodes = workspace.files@[file].nodes@;
    assert(nodes.len() == workspace.files@[file].nodes.len());
    lemma_prefix(nodes.len(), workspace.new_unchecked_at(file), (m + 1) as nat);
    lemma_concat_map_step(indices(nodes.len()), workspace.new_unchecked_at(file), m as int);
    assert(indices(nodes.len()).take(m as int) =~= indices(m as nat));
    assert(indices(nodes.len()).take(m + 1) =~= indices((m + 1) as nat));
    assert(indices(nodes.len())[m as int] == m);
}

} // verus!
