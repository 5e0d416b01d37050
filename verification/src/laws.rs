//! What holds of the checks as a whole.

use vstd::prelude::*;

use crate::diagnostic::{plain_diagnostic, DiagnosticView, Severity};
use crate::facts::{
    callee_function, constructs, impl_header, implements, named_adt, pinned_implements,
};
use crate::pin_consistency::{
    by_field, entry_fields, generic_param, inconsistencies, inconsistency, inconsistent_message,
    lemma_by_field_fields, missing_bound, pinned_field, projected_fields, sites_of, Bucket,
    Projection, TraitKind,
};
use crate::pin_drop_analysis::{
    argument_is_self_field, constructor_args, drop_body, leads_to, may_move_at, move_diagnostic,
    self_field, surrounding, targets_self_field, use_context, DropVerdict, FieldUseContext,
    MovePatternKind,
};
use crate::pin_misuse::{call_site, pin_project_crate, pin_project_expansion};
use crate::pin_unpin_analysis::{from_pin_macro, inside_unsafe_fn, offending};
use crate::sequences::{
    concat_map, first_some, indices, lemma_concat_map_contains, lemma_concat_map_empty,
    lemma_first_some_exists, none_before,
};
use crate::text::{lemma_with_elements, text_is};
use crate::tree::{
    lemma_subtree_bounds, lemma_subtree_sorted, lemma_within_order, parent_ok, parents_ok, subtree,
    within,
};
use crate::wellformed::lemma_parents_ok;
use crate::workspace::{
    AdtKind, AssocItem, FieldDef, FileRange, ImplItem, Node, NodeKind, Path, RecordField,
    TextRange, TypeParam, WherePredicate, Workspace,
};

verus! {

// ---------------------------------------------------------------------------
// Selections
// ---------------------------------------------------------------------------

/// Selecting keeps the result of every element that has one, and nothing else.
pub proof fn lemma_filter_map_contains<A, B>(list: Seq<A>, f: spec_fn(A) -> Option<B>, b: B)
    ensures
        list.filter_map(f).contains(b) <==> exists|i: int|
            0 <= i < list.len() && #[trigger] f(list[i]) == Some(b),
    decreases list.len(),
{
    if list.len() > 0 {
        let front = list.drop_last();
        let head = front.filter_map(f);
        let whole = list.filter_map(f);
        lemma_filter_map_contains(front, f, b);
        if whole.contains(b) {
            let k = choose|k: int| 0 <= k < whole.len() && whole[k] == b;
            if k < head.len() {
                assert(head[k] == b);
                let i = choose|i: int| 0 <= i < front.len() && #[trigger] f(front[i]) == Some(b);
                assert(f(list[i]) == Some(b));
            } else {
                assert(f(list[list.len() - 1]) == Some(b));
            }
        }
        if exists|i: int| 0 <= i < list.len() && #[trigger] f(list[i]) == Some(b) {
            let i = choose|i: int| 0 <= i < list.len() && #[trigger] f(list[i]) == Some(b);
            if i < front.len() {
                assert(f(front[i]) == Some(b));
                let k = choose|k: int| 0 <= k < head.len() && head[k] == b;
                assert(whole[k] == b);
            } else {
                assert(whole[head.len() as int] == b);
            }
        }
    }
}

/// A selection is empty exactly when no element has a result.
pub proof fn lemma_filter_map_empty<A, B>(list: Seq<A>, f: spec_fn(A) -> Option<B>)
    ensures
        list.filter_map(f).len() == 0 <==> (forall|i: int|
            0 <= i < list.len() ==> #[trigger] f(list[i]) is None),
{
    let selected = list.filter_map(f);
    if selected.len() > 0 {
        let b = selected[0];
        assert(selected.contains(b));
        lemma_filter_map_contains(list, f, b);
        let i = choose|i: int| 0 <= i < list.len() && #[trigger] f(list[i]) == Some(b);
        assert(f(list[i]) is Some);
    } else if exists|i: int| 0 <= i < list.len() && #[trigger] f(list[i]) is Some {
        let i = choose|i: int| 0 <= i < list.len() && #[trigger] f(list[i]) is Some;
        let b = f(list[i])->0;
        lemma_filter_map_contains(list, f, b);
        assert(selected.contains(b));
    }
}

/// What a pass over the numbers below `len` gives comes from one of the numbers.
pub proof fn lemma_pass<B>(len: nat, part: spec_fn(usize) -> Seq<B>, b: B)
    requires
        len <= usize::MAX,
    ensures
        concat_map(indices(len), part).contains(b) <==> exists|m: usize|
            m < len && #[trigger] part(m).contains(b),
{
    let all = indices(len);
    lemma_concat_map_contains(all, part, b);
    if concat_map(all, part).contains(b) {
        let i = choose|i: int| 0 <= i < all.len() && #[trigger] part(all[i]).contains(b);
        assert(part(all[i]).contains(b));
    }
    if exists|m: usize| m < len && #[trigger] part(m).contains(b) {
        let m = choose|m: usize| m < len && #[trigger] part(m).contains(b);
        assert(all[m as int] == m);
        assert(part(all[m as int]).contains(b));
    }
}

/// What two sequences hold together.
pub proof fn lemma_add_contains<B>(first: Seq<B>, second: Seq<B>, b: B)
    ensures
        (first + second).contains(b) <==> first.contains(b) || second.contains(b),
{
    let whole = first + second;
    if whole.contains(b) {
        let k = choose|k: int| 0 <= k < whole.len() && whole[k] == b;
        if k < first.len() {
            assert(first[k] == b);
        } else {
            assert(second[k - first.len()] == b);
        }
    }
    if first.contains(b) {
        let k = choose|k: int| 0 <= k < first.len() && first[k] == b;
        assert(whole[k] == b);
    }
    if second.contains(b) {
        let k = choose|k: int| 0 <= k < second.len() && second[k] == b;
        assert(whole[first.len() + k] == b);
    }
}

// ---------------------------------------------------------------------------
// Consistency of projections
// ---------------------------------------------------------------------------

/// Whether a projection and another one treat the same field in opposite ways.
pub open spec fn conflict(non_structural: Projection, structural: Projection) -> bool {
    &&& non_structural.bucket == Bucket::NonStructuralSite
    &&& structural.bucket == Bucket::StructuralSite
    &&& non_structural.site.field == structural.site.field
}

/// The diagnostic for a projection that conflicts with another one.
pub open spec fn conflict_diagnostic(
    file_id: u32,
    non_structural: Projection,
    structural: Projection,
) -> DiagnosticView {
    plain_diagnostic(
        "pin-inconsistent-projection"@,
        Severity::Warning,
        inconsistent_message(
            non_structural.site.field,
            non_structural.site.method,
            structural.site.method,
        ),
        FileRange { file_id, range: non_structural.site.range },
    )
}

/// The entry of a field in the grouped sites.
proof fn lemma_entry(projections: Seq<Projection>, k: int)
    requires
        0 <= k < by_field(projections).len(),
    ensures
        ({
            let entry = by_field(projections)[k];
            &&& entry.structural == projections.filter_map(
                sites_of(entry.field, Bucket::StructuralSite),
            )
            &&& entry.non_structural == projections.filter_map(
                sites_of(entry.field, Bucket::NonStructuralSite),
            )
        }),
{
}

/// Every field that is projected to has an entry.
proof fn lemma_has_entry(projections: Seq<Projection>, i: int) -> (k: int)
    requires
        0 <= i < projections.len(),
    ensures
        0 <= k < by_field(projections).len(),
        by_field(projections)[k].field == projections[i].site.field,
{
    let fields = projected_fields(projections);
    assert(fields[i] == projections[i].site.field);
    lemma_with_elements(Seq::empty(), fields);
    lemma_by_field_fields(projections);
    assert(entry_fields(by_field(projections)).contains(projections[i].site.field));
    let k = choose|k: int|
        0 <= k < entry_fields(by_field(projections)).len() && entry_fields(
            by_field(projections),
        )[k] == projections[i].site.field;
    k
}

/// Every diagnostic about inconsistent projections names two methods of one impl that treat the
/// same field in opposite ways, and stands at the non-structural one.
pub proof fn law_inconsistency_is_real(
    workspace: Workspace,
    file: int,
    item: ImplItem,
    diagnostic: DiagnosticView,
)
    requires
        workspace.inconsistent_in(file, item).contains(diagnostic),
    ensures
        ({
            let projections = workspace.impl_projections(
                workspace.tree(file),
                item,
                "<unnamed>"@,
            );
            exists|i: int, j: int|
                0 <= i < projections.len() && 0 <= j < projections.len() && #[trigger] conflict(
                    projections[i],
                    projections[j],
                ) && diagnostic == conflict_diagnostic(
                    workspace.files@[file].file_id,
                    projections[i],
                    projections[j],
                )
        }),
{
    let projections = workspace.impl_projections(workspace.tree(file), item, "<unnamed>"@);
    let file_id = workspace.files@[file].file_id;
    let entries = by_field(projections);
    lemma_concat_map_contains(entries, inconsistencies(file_id), diagnostic);
    let k = choose|k: int|
        0 <= k < entries.len() && #[trigger] inconsistencies(file_id)(entries[k]).contains(
            diagnostic,
        );
    let entry = entries[k];
    lemma_entry(projections, k);
    let made = entry.non_structural.map_values(inconsistency(file_id, entry));
    let n = choose|n: int| 0 <= n < made.len() && made[n] == diagnostic;
    let here = entry.non_structural[n];
    let there = entry.structural[0];
    assert(entry.non_structural.contains(here));
    assert(entry.structural.contains(there));
    let pick_here = sites_of(entry.field, Bucket::NonStructuralSite);
    let pick_there = sites_of(entry.field, Bucket::StructuralSite);
    lemma_filter_map_contains(projections, pick_here, here);
    lemma_filter_map_contains(projections, pick_there, there);
    let i = choose|i: int|
        0 <= i < projections.len() && #[trigger] pick_here(projections[i]) == Some(here);
    let j = choose|j: int|
        0 <= j < projections.len() && #[trigger] pick_there(projections[j]) == Some(there);
    assert(conflict(projections[i], projections[j]));
}

/// Every non-structural projection of a field that a method of the same impl treats as
/// structurally pinned is reported.
pub proof fn law_inconsistency_is_reported(
    workspace: Workspace,
    file: int,
    item: ImplItem,
    i: int,
    j: int,
)
    requires
        ({
            let projections = workspace.impl_projections(
                workspace.tree(file),
                item,
                "<unnamed>"@,
            );
            0 <= i < projections.len() && 0 <= j < projections.len() && conflict(
                projections[i],
                projections[j],
            )
        }),
    ensures
        ({
            let projections = workspace.impl_projections(
                workspace.tree(file),
                item,
                "<unnamed>"@,
            );
            exists|k: int|
                0 <= k < projections.len() && #[trigger] conflict(projections[i], projections[k])
                    && workspace.inconsistent_in(file, item).contains(
                    conflict_diagnostic(
                        workspace.files@[file].file_id,
                        projections[i],
                        projections[k],
                    ),
                )
        }),
{
    let projections = workspace.impl_projections(workspace.tree(file), item, "<unnamed>"@);
    let file_id = workspace.files@[file].file_id;
    let entries = by_field(projections);
    let e = lemma_has_entry(projections, i);
    let entry = entries[e];
    lemma_entry(projections, e);
    let pick_here = sites_of(entry.field, Bucket::NonStructuralSite);
    let pick_there = sites_of(entry.field, Bucket::StructuralSite);
    let here = projections[i].site;
    assert(pick_here(projections[i]) == Some(here));
    assert(pick_there(projections[j]) == Some(projections[j].site));
    lemma_filter_map_contains(projections, pick_here, here);
    lemma_filter_map_contains(projections, pick_there, projections[j].site);
    let there = entry.structural[0];
    assert(entry.structural.contains(there));
    lemma_filter_map_contains(projections, pick_there, there);
    let k = choose|k: int|
        0 <= k < projections.len() && #[trigger] pick_there(projections[k]) == Some(there);
    assert(conflict(projections[i], projections[k]));
    let diagnostic = conflict_diagnostic(file_id, projections[i], projections[k]);
    let n = choose|n: int| 0 <= n < entry.non_structural.len() && entry.non_structural[n] == here;
    let made = entry.non_structural.map_values(inconsistency(file_id, entry));
    assert(made[n] == diagnostic);
    assert(inconsistencies(file_id)(entries[e]).contains(diagnostic));
    lemma_concat_map_contains(entries, inconsistencies(file_id), diagnostic);
}

/// Where two methods of an inherent impl treat a field in opposite ways, the check of the file
/// reports the non-structural one.
pub proof fn law_inconsistency_in_file(
    workspace: Workspace,
    file: int,
    m: usize,
    i: int,
    j: int,
)
    requires
        m < workspace.tree(file).len(),
        workspace.tree(file)[m as int].kind matches NodeKind::Impl(item) && item.trait_type is None
            && ({
            let projections = workspace.impl_projections(
                workspace.tree(file),
                item,
                "<unnamed>"@,
            );
            0 <= i < projections.len() && 0 <= j < projections.len() && conflict(
                projections[i],
                projections[j],
            )
        }),
    ensures
        ({
            let projections = workspace.impl_projections(
                workspace.tree(file),
                workspace.tree(file)[m as int].kind->Impl_0,
                "<unnamed>"@,
            );
            exists|k: int|
                0 <= k < projections.len() && #[trigger] conflict(projections[i], projections[k])
                    && workspace.inconsistent_projections(file).contains(
                    conflict_diagnostic(
                        workspace.files@[file].file_id,
                        projections[i],
                        projections[k],
                    ),
                )
        }),
{
    let nodes = workspace.tree(file);
    assert(nodes.len() == workspace.files@[file].nodes.len());
    let item = nodes[m as int].kind->Impl_0;
    let file_id = workspace.files@[file].file_id;
    let projections = workspace.impl_projections(nodes, item, "<unnamed>"@);
    law_inconsistency_is_reported(workspace, file, item, i, j);
    let k = choose|k: int|
        0 <= k < projections.len() && #[trigger] conflict(projections[i], projections[k])
            && workspace.inconsistent_in(file, item).contains(
            conflict_diagnostic(file_id, projections[i], projections[k]),
        );
    let diagnostic = conflict_diagnostic(file_id, projections[i], projections[k]);
    assert(workspace.inconsistent_at(file)(m).contains(diagnostic));
    lemma_pass(nodes.len(), workspace.inconsistent_at(file), diagnostic);
}

/// An impl that treats every field in one way only gives no diagnostic.
pub proof fn law_consistent_impl(workspace: Workspace, file: int, item: ImplItem)
    requires
        ({
            let projections = workspace.impl_projections(
                workspace.tree(file),
                item,
                "<unnamed>"@,
            );
            forall|i: int, j: int|
                0 <= i < projections.len() && 0 <= j < projections.len() ==> !#[trigger] conflict(
                    projections[i],
                    projections[j],
                )
        }),
    ensures
        workspace.inconsistent_in(file, item) == Seq::<DiagnosticView>::empty(),
{
    let found = workspace.inconsistent_in(file, item);
    if found.len() > 0 {
        assert(found.contains(found[0]));
        law_inconsistency_is_real(workspace, file, item, found[0]);
    }
    assert(found =~= Seq::empty());
}

/// Methods that do not take `self: Pin<&mut Self>` take no part: an impl without any such method
/// gives no diagnostic and pins no field.
pub proof fn law_ordinary_methods(
    workspace: Workspace,
    file: int,
    item: ImplItem,
    unnamed: Seq<char>,
)
    requires
        item.items matches Some(items) ==> forall|k: int|
            0 <= k < items@.len() ==> (#[trigger] items@[k] matches AssocItem::FnItem(f) ==> (
            workspace.tree(file)[f as int].kind matches NodeKind::FnItem(function)
                ==> !workspace.takes_pin_mut_self(function))),
    ensures
        workspace.impl_projections(workspace.tree(file), item, unnamed) == Seq::<
            Projection,
        >::empty(),
        workspace.inconsistent_in(file, item) == Seq::<DiagnosticView>::empty(),
{
    let nodes = workspace.tree(file);
    assert forall|words: Seq<char>|
        workspace.impl_projections(nodes, item, words) =~= Seq::<Projection>::empty() by {
        if item.items is Some {
            let items = item.items->0@;
            let part = workspace.member_projections(nodes, words);
            assert forall|k: int| 0 <= k < items.len() implies #[trigger] part(items[k]).len()
                == 0 by {
                assert(item.items->0@[k] == items[k]);
            }
            lemma_concat_map_empty(items, part);
        }
    }
    law_consistent_impl(workspace, file, item);
}

/// A field is structurally pinned exactly when a method of an inherent impl of the type projects
/// to it structurally; no field is listed twice.
pub proof fn law_structural_fields(
    workspace: Workspace,
    file: int,
    adt: usize,
    field: Seq<char>,
)
    ensures
        ({
            let nodes = workspace.tree(file);
            &&& workspace.structural_fields(nodes, adt).no_duplicates()
            &&& workspace.structural_fields(nodes, adt).contains(field) <==> exists|m: int, i: int|
                0 <= m < nodes.len() && #[trigger] pins_field(workspace, nodes, adt, m, i, field)
        }),
{
    let nodes = workspace.tree(file);
    assert(nodes.len() == workspace.files@[file].nodes.len());
    let all = indices(nodes.len());
    let part = workspace.pinned_at(nodes, adt);
    let collected = concat_map(all, part);
    lemma_with_elements(Seq::empty(), collected);
    lemma_concat_map_contains(all, part, field);
    if collected.contains(field) {
        let m = choose|m: int| 0 <= m < all.len() && #[trigger] part(all[m]).contains(field);
        let projections = workspace.impl_projections(nodes, nodes[m].kind->Impl_0, ""@);
        let entries = by_field(projections);
        lemma_filter_map_contains(entries, pinned_field(), field);
        let k = choose|k: int|
            0 <= k < entries.len() && #[trigger] pinned_field()(entries[k]) == Some(field);
        lemma_entry(projections, k);
        let pick = sites_of(field, Bucket::StructuralSite);
        let site = entries[k].structural[0];
        assert(entries[k].structural.contains(site));
        lemma_filter_map_contains(projections, pick, site);
        let i = choose|i: int|
            0 <= i < projections.len() && #[trigger] pick(projections[i]) == Some(site);
        assert(pins_field(workspace, nodes, adt, m, i, field));
    }
    if exists|m: int, i: int|
        0 <= m < nodes.len() && #[trigger] pins_field(workspace, nodes, adt, m, i, field) {
        let (m, i) = choose|m: int, i: int|
            0 <= m < nodes.len() && #[trigger] pins_field(workspace, nodes, adt, m, i, field);
        let projections = workspace.impl_projections(nodes, nodes[m].kind->Impl_0, ""@);
        let entries = by_field(projections);
        let k = lemma_has_entry(projections, i);
        lemma_entry(projections, k);
        let pick = sites_of(field, Bucket::StructuralSite);
        assert(pick(projections[i]) == Some(projections[i].site));
        lemma_filter_map_contains(projections, pick, projections[i].site);
        assert(entries[k].structural.len() > 0);
        assert(pinned_field()(entries[k]) == Some(field));
        lemma_filter_map_contains(entries, pinned_field(), field);
        assert(all[m] == m);
        assert(part(all[m]).contains(field));
    }
}

/// Whether node `m` is an inherent impl of a type whose projection `i` pins a field structurally.
pub open spec fn pins_field(
    workspace: Workspace,
    nodes: Seq<Node>,
    adt: usize,
    m: int,
    i: int,
    field: Seq<char>,
) -> bool {
    &&& nodes[m].kind matches NodeKind::Impl(item)
    &&& item.trait_type is None
    &&& item.self_type matches Some(ty)
    &&& named_adt(ty) == Some(adt)
    &&& 0 <= i < workspace.impl_projections(nodes, item, ""@).len()
    &&& workspace.impl_projections(nodes, item, ""@)[i].bucket == Bucket::StructuralSite
    &&& workspace.impl_projections(nodes, item, ""@)[i].site.field == field
}

/// A type without structurally pinned fields may have any `Drop` and `Unpin` impls.
pub proof fn law_unpinned_type(
    workspace: Workspace,
    file: int,
    m: usize,
    adt: usize,
)
    requires
        workspace.tree(file)[m as int].kind matches NodeKind::Impl(item) && (
        item.self_type matches Some(self_type) && named_adt(self_type) == Some(adt)),
        workspace.structural_fields(workspace.tree(file), adt).len() == 0,
    ensures
        workspace.trait_impl_at(file)(m) == Seq::<DiagnosticView>::empty(),
{
    let nodes = workspace.tree(file);
    let file_id = workspace.files@[file].file_id;
    let fields = workspace.structural_fields(nodes, adt);
    let item = nodes[m as int].kind->Impl_0;
    law_drop_hint_or_moves(workspace, file_id, nodes, m as int, fields);
    if workspace.adts@[adt as int].record_fields is Some {
        let record_fields = workspace.adts@[adt as int].record_fields->0@;
        lemma_filter_map_empty(
            record_fields,
            missing_bound(fields, workspace.unpin_bounded_types(item)),
        );
    }
    assert(workspace.trait_impl_at(file)(m) =~= Seq::empty());
}

/// The diagnostics about consistency are those of the single impls.
pub proof fn law_consistency_of_impls(workspace: Workspace, file: int, diagnostic: DiagnosticView)
    ensures
        (workspace.inconsistent_projections(file) + workspace.broken_trait_impls(file)).contains(
            diagnostic,
        ) <==> (exists|m: usize|
            m < workspace.tree(file).len() && #[trigger] workspace.inconsistent_at(file)(m).contains(
                diagnostic,
            )) || (exists|m: usize|
            m < workspace.tree(file).len() && #[trigger] workspace.trait_impl_at(file)(m).contains(
                diagnostic,
            )),
{
    assert(workspace.tree(file).len() == workspace.files@[file].nodes.len());
    let len = workspace.tree(file).len();
    lemma_add_contains(
        workspace.inconsistent_projections(file),
        workspace.broken_trait_impls(file),
        diagnostic,
    );
    lemma_pass(len, workspace.inconsistent_at(file), diagnostic);
    lemma_pass(len, workspace.trait_impl_at(file), diagnostic);
}

// ---------------------------------------------------------------------------
// `Drop` impls
// ---------------------------------------------------------------------------

/// Whether node `m` below `body` certainly moves a field in the given way.
pub open spec fn moves_below(
    workspace: Workspace,
    nodes: Seq<Node>,
    body: usize,
    m: usize,
    field: Seq<char>,
) -> bool {
    m < nodes.len() && within(nodes, m as int, body as int) && workspace.move_at(
        nodes,
        m,
        field,
    ) is Some
}

/// Whether node `m` below `body` may move a field.
pub open spec fn may_move_below(
    nodes: Seq<Node>,
    body: usize,
    m: usize,
    field: Seq<char>,
) -> bool {
    m < nodes.len() && within(nodes, m as int, body as int) && may_move_at(nodes, m, field)
}

/// The verdict on a field: a certain move if and only if the body holds one, and then the first
/// one; otherwise a possible move if and only if the body holds a use that cannot be judged.
pub proof fn law_drop_verdict(workspace: Workspace, file: int, body: usize, field: Seq<char>)
    ensures
        ({
            let nodes = workspace.tree(file);
            let verdict = workspace.body_verdict(nodes, body, field);
            let moved = exists|m: usize| moves_below(workspace, nodes, body, m, field);
            let unclear = exists|m: usize| may_move_below(nodes, body, m, field);
            &&& verdict is DefinitelyMoves <==> moved
            &&& verdict is PossiblyMoves <==> !moved && unclear
            &&& verdict is NoMove <==> !moved && !unclear
            &&& verdict matches DropVerdict::DefinitelyMoves { site, kind } ==> exists|m: usize|
                {
                    &&& #[trigger] moves_below(workspace, nodes, body, m, field)
                    &&& workspace.move_at(nodes, m, field) == Some((site, kind))
                    &&& forall|n: usize|
                        n < m ==> !#[trigger] moves_below(workspace, nodes, body, n, field)
                }
        }),
{
    let nodes = workspace.tree(file);
    assert(nodes.len() == workspace.files@[file].nodes.len());
    let list = subtree(nodes, body);
    let pick = workspace.moves_of(nodes, field);
    lemma_subtree_bounds(nodes, body);
    lemma_subtree_sorted(nodes, body);
    lemma_first_some_exists(list, pick);
    if first_some(list, pick) is Some {
        let i = choose|i: int|
            0 <= i < list.len() && #[trigger] pick(list[i]) == first_some(list, pick)
                && none_before(list, pick, i);
        let m = list[i];
        assert(moves_below(workspace, nodes, body, m, field));
        assert forall|n: usize| n < m implies !#[trigger] moves_below(
            workspace,
            nodes,
            body,
            n,
            field,
        ) by {
            if moves_below(workspace, nodes, body, n, field) {
                assert(list.contains(n));
                let j = choose|j: int| 0 <= j < list.len() && list[j] == n;
                assert(pick(list[j]) is Some);
                assert(j >= i);
            }
        }
    } else {
        assert forall|m: usize| !moves_below(workspace, nodes, body, m, field) by {
            if moves_below(workspace, nodes, body, m, field) {
                assert(list.contains(m));
                let j = choose|j: int| 0 <= j < list.len() && list[j] == m;
                assert(pick(list[j]) is Some);
            }
        }
        if exists|k: int| 0 <= k < list.len() && may_move_at(nodes, #[trigger] list[k], field) {
            let k = choose|k: int|
                0 <= k < list.len() && may_move_at(nodes, #[trigger] list[k], field);
            assert(may_move_below(nodes, body, list[k], field));
        }
        if exists|m: usize| may_move_below(nodes, body, m, field) {
            let m = choose|m: usize| may_move_below(nodes, body, m, field);
            assert(list.contains(m));
            let j = choose|j: int| 0 <= j < list.len() && list[j] == m;
            assert(may_move_at(nodes, list[j], field));
        }
    }
}

/// Whether node `m` leaves a field where it is: it does not touch it, borrows it, or reads a
/// `Copy` value; and it is no call that moves it through a reference.
pub open spec fn leaves_field(
    workspace: Workspace,
    nodes: Seq<Node>,
    m: usize,
    field: Seq<char>,
) -> bool {
    &&& self_field(nodes, m as int, field) ==> {
        ||| use_context(nodes, m) == FieldUseContext::Borrow
        ||| workspace.copy_typed(nodes, m as int) && (use_context(nodes, m)
            == FieldUseContext::DirectMove || use_context(nodes, m)
            == FieldUseContext::PassedAsArgument)
    }
    &&& targets_self_field(nodes, m as int, field) ==> workspace.move_call(nodes, m as int) is None
}

/// A `drop` that only borrows a field, reads it as a `Copy` value or does not touch it at all
/// does not move it, whatever it does to other fields.
pub proof fn law_field_left_alone(
    workspace: Workspace,
    file: int,
    item: ImplItem,
    field: Seq<char>,
)
    requires
        drop_body(workspace.tree(file), item) matches Some(body) ==> forall|m: usize|
            m < workspace.tree(file).len() && within(workspace.tree(file), m as int, body as int)
                ==> #[trigger] leaves_field(workspace, workspace.tree(file), m, field),
    ensures
        workspace.drop_verdict(workspace.tree(file), item, field) == DropVerdict::NoMove,
{
    let nodes = workspace.tree(file);
    if drop_body(nodes, item) is Some {
        let body = drop_body(nodes, item)->0;
        law_drop_verdict(workspace, file, body, field);
        assert forall|m: usize| !moves_below(workspace, nodes, body, m, field) by {
            if moves_below(workspace, nodes, body, m, field) {
                assert(leaves_field(workspace, nodes, m, field));
            }
        }
        assert forall|m: usize| !may_move_below(nodes, body, m, field) by {
            if may_move_below(nodes, body, m, field) {
                assert(leaves_field(workspace, nodes, m, field));
            }
        }
    }
}

/// Whether node `m` below `body` is `self.field`, or calls something with it.
pub open spec fn uses_field(nodes: Seq<Node>, body: usize, m: usize, field: Seq<char>) -> bool {
    m < nodes.len() && within(nodes, m as int, body as int) && mentions_field(nodes, m, field)
}

/// Whether node `m` is `self.field`, or calls something with it.
pub open spec fn mentions_field(nodes: Seq<Node>, m: usize, field: Seq<char>) -> bool {
    self_field(nodes, m as int, field) || targets_self_field(nodes, m as int, field)
}

/// Whether two nodes, of one tree or of two, do the same to a field.
pub open spec fn same_use(
    workspace: Workspace,
    nodes: Seq<Node>,
    m: usize,
    others: Seq<Node>,
    n: usize,
    field: Seq<char>,
) -> bool {
    &&& self_field(nodes, m as int, field) == self_field(others, n as int, field)
    &&& use_context(nodes, m) == use_context(others, n)
    &&& workspace.copy_typed(nodes, m as int) == workspace.copy_typed(others, n as int)
    &&& targets_self_field(nodes, m as int, field) == targets_self_field(others, n as int, field)
    &&& workspace.move_call(nodes, m as int) == workspace.move_call(others, n as int)
}

/// Whether two verdicts are of the same variant, and about the same kind of move.
pub open spec fn same_verdict(a: DropVerdict, b: DropVerdict) -> bool {
    match (a, b) {
        (
            DropVerdict::DefinitelyMoves { site: _, kind },
            DropVerdict::DefinitelyMoves { site: _, kind: other_kind },
        ) => kind == other_kind,
        (DropVerdict::PossiblyMoves, DropVerdict::PossiblyMoves) => true,
        (DropVerdict::NoMove, DropVerdict::NoMove) => true,
        _ => false,
    }
}

/// Only what uses a field counts for the verdict on it: two bodies whose uses of the field
/// correspond, in the same order, get the same verdict, whatever else they do.
pub proof fn law_same_uses(
    workspace: Workspace,
    file: int,
    body: usize,
    other_file: int,
    other_body: usize,
    field: Seq<char>,
    to: spec_fn(usize) -> usize,
)
    requires
        ({
            let nodes = workspace.tree(file);
            let others = workspace.tree(other_file);
            &&& forall|m: usize| #[trigger]
                uses_field(nodes, body, m, field) ==> uses_field(others, other_body, to(m), field)
                    && same_use(workspace, nodes, m, others, to(m), field)
            &&& forall|n: usize| #[trigger]
                uses_field(others, other_body, n, field) ==> exists|m: usize|
                    #[trigger] uses_field(nodes, body, m, field) && to(m) == n
            &&& forall|m: usize, k: usize| #[trigger]
                uses_field(nodes, body, m, field) && #[trigger] uses_field(nodes, body, k, field)
                    && m < k ==> to(m) < to(k)
        }),
    ensures
        same_verdict(
            workspace.body_verdict(workspace.tree(file), body, field),
            workspace.body_verdict(workspace.tree(other_file), other_body, field),
        ),
{
    let nodes = workspace.tree(file);
    let others = workspace.tree(other_file);
    law_drop_verdict(workspace, file, body, field);
    law_drop_verdict(workspace, other_file, other_body, field);
    assert forall|m: usize| #[trigger] moves_below(workspace, nodes, body, m, field) implies uses_field(
        nodes,
        body,
        m,
        field,
    ) && moves_below(workspace, others, other_body, to(m), field) by {
        assert(uses_field(nodes, body, m, field));
    }
    assert forall|m: usize| #[trigger] may_move_below(nodes, body, m, field) implies may_move_below(
        others,
        other_body,
        to(m),
        field,
    ) by {
        assert(uses_field(nodes, body, m, field));
    }
    assert forall|n: usize| #[trigger]
        moves_below(workspace, others, other_body, n, field) implies exists|m: usize|
        #[trigger] moves_below(workspace, nodes, body, m, field) && to(m) == n by {
        assert(uses_field(others, other_body, n, field));
        let m = choose|m: usize| #[trigger] uses_field(nodes, body, m, field) && to(m) == n;
        assert(moves_below(workspace, nodes, body, m, field));
    }
    assert forall|n: usize| #[trigger] may_move_below(others, other_body, n, field) implies exists|
        m: usize,
    | #[trigger] may_move_below(nodes, body, m, field) && to(m) == n by {
        assert(uses_field(others, other_body, n, field));
        let m = choose|m: usize| #[trigger] uses_field(nodes, body, m, field) && to(m) == n;
        assert(may_move_below(nodes, body, m, field));
    }
    if exists|m: usize| moves_below(workspace, nodes, body, m, field) {
        let verdict = workspace.body_verdict(nodes, body, field);
        let other_verdict = workspace.body_verdict(others, other_body, field);
        let m = choose|m: usize|
            {
                &&& #[trigger] moves_below(workspace, nodes, body, m, field)
                &&& workspace.move_at(nodes, m, field) == Some(
                    (verdict->site, verdict->kind),
                )
                &&& forall|k: usize|
                    k < m ==> !#[trigger] moves_below(workspace, nodes, body, k, field)
            };
        assert(moves_below(workspace, others, other_body, to(m), field));
        let n = choose|n: usize|
            {
                &&& #[trigger] moves_below(workspace, others, other_body, n, field)
                &&& workspace.move_at(others, n, field) == Some(
                    (other_verdict->site, other_verdict->kind),
                )
                &&& forall|k: usize|
                    k < n ==> !#[trigger] moves_below(workspace, others, other_body, k, field)
            };
        let p = choose|p: usize|
            #[trigger] moves_below(workspace, nodes, body, p, field) && to(p) == n;
        assert(uses_field(nodes, body, m, field));
        assert(uses_field(nodes, body, p, field));
        assert(p == m);
    }
}

/// Where node `i` stands after `count` nodes were added before position `at`.
pub open spec fn shifted(at: int, count: int) -> spec_fn(usize) -> usize {
    |i: usize|
        if i < at {
            i
        } else {
            (i + count) as usize
        }
}

/// Whether a link leads to where the node of another link stands now.
pub open spec fn link_moved(to: spec_fn(usize) -> usize, link: Option<usize>, new: Option<usize>) -> bool {
    match (link, new) {
        (Some(a), Some(b)) => b == to(a),
        (None, None) => true,
        _ => false,
    }
}

/// Whether the links of a list lead to where the nodes of another list stand now.
pub open spec fn links_moved(
    to: spec_fn(usize) -> usize,
    links: Option<Vec<usize>>,
    new: Option<Vec<usize>>,
) -> bool {
    match (links, new) {
        (Some(a), Some(b)) => a@.len() == b@.len() && forall|k: int|
            0 <= k < a@.len() ==> #[trigger] b@[k] == to(a@[k]),
        (None, None) => true,
        _ => false,
    }
}

/// Whether two optional strings spell the same.
pub open spec fn same_name(a: Option<String>, b: Option<String>) -> bool {
    match (a, b) {
        (Some(x), Some(y)) => x@ == y@,
        (None, None) => true,
        _ => false,
    }
}

/// Whether two paths end in the same name and resolve to the same.
pub open spec fn same_path(a: Option<Path>, b: Option<Path>) -> bool {
    match (a, b) {
        (Some(x), Some(y)) => x.resolution == y.resolution && (match (x.segment, y.segment) {
            (Some(s), Some(t)) => same_name(s.name, t.name),
            (None, None) => true,
            _ => false,
        }),
        (None, None) => true,
        _ => false,
    }
}

/// Whether a node is the same as before, with its links moved.
pub open spec fn kind_moved(to: spec_fn(usize) -> usize, kind: NodeKind, new: NodeKind) -> bool {
    match (kind, new) {
        (NodeKind::MethodCall(a), NodeKind::MethodCall(b)) => link_moved(
            to,
            a.receiver,
            b.receiver,
        ),
        (NodeKind::Call(a), NodeKind::Call(b)) => link_moved(to, a.callee, b.callee) && links_moved(
            to,
            a.args,
            b.args,
        ),
        (NodeKind::Field(a), NodeKind::Field(b)) => link_moved(to, a.expr, b.expr) && same_name(
            a.name,
            b.name,
        ),
        (NodeKind::PathExpr(a), NodeKind::PathExpr(b)) => same_path(a, b),
        (
            NodeKind::RefExpr { mutable: _, expr: a },
            NodeKind::RefExpr { mutable: _, expr: b },
        ) => link_moved(to, a, b),
        (NodeKind::BinExpr { op: a, lhs: x }, NodeKind::BinExpr { op: b, lhs: y }) => a == b
            && link_moved(to, x, y),
        (NodeKind::ParenExpr { expr: a }, NodeKind::ParenExpr { expr: b }) => link_moved(to, a, b),
        (NodeKind::Closure { body: a }, NodeKind::Closure { body: b }) => link_moved(to, a, b),
        (NodeKind::Impl(_), NodeKind::Impl(_)) => true,
        (NodeKind::FnItem(_), NodeKind::FnItem(_)) => true,
        (NodeKind::ArgList, NodeKind::ArgList) => true,
        (NodeKind::LetStmt, NodeKind::LetStmt) => true,
        (NodeKind::ReturnExpr, NodeKind::ReturnExpr) => true,
        (NodeKind::TupleExpr, NodeKind::TupleExpr) => true,
        (NodeKind::RecordExprField, NodeKind::RecordExprField) => true,
        (NodeKind::Other, NodeKind::Other) => true,
        _ => false,
    }
}

/// Whether a node is the same as before, at a new place.
pub open spec fn node_moved(to: spec_fn(usize) -> usize, node: Node, new: Node) -> bool {
    &&& link_moved(to, node.parent, new.parent)
    &&& kind_moved(to, node.kind, new.kind)
    &&& match (node.ty, new.ty) {
        (Some(a), Some(b)) => a.implements@ == b.implements@,
        (None, None) => true,
        _ => false,
    }
}

/// Whether a tree is another one with `count` nodes added before position `at`.
pub open spec fn nodes_added(nodes: Seq<Node>, more: Seq<Node>, at: int, count: int) -> bool {
    &&& 0 <= at <= nodes.len()
    &&& 0 <= count
    &&& more.len() == nodes.len() + count
    &&& forall|i: usize|
        i < nodes.len() ==> node_moved(
            shifted(at, count),
            #[trigger] nodes[i as int],
            more[shifted(at, count)(i) as int],
        )
}

/// Adding nodes does not change what lies below a node.
proof fn lemma_added_within(
    nodes: Seq<Node>,
    more: Seq<Node>,
    at: int,
    count: int,
    m: usize,
    n: usize,
)
    requires
        more.len() <= usize::MAX,
        parents_ok(nodes),
        nodes_added(nodes, more, at, count),
        m < nodes.len(),
        n < nodes.len(),
    ensures
        within(nodes, m as int, n as int) == within(
            more,
            shifted(at, count)(m) as int,
            shifted(at, count)(n) as int,
        ),
    decreases m,
{
    let to = shifted(at, count);
    assert(node_moved(to, nodes[m as int], more[to(m) as int]));
    assert(parent_ok(nodes, m as int));
    if m != n && nodes[m as int].parent is Some {
        lemma_added_within(nodes, more, at, count, nodes[m as int].parent->0, n);
    }
}

/// Adding nodes does not change what the other nodes do to a field.
proof fn lemma_added_use(
    workspace: Workspace,
    nodes: Seq<Node>,
    more: Seq<Node>,
    at: int,
    count: int,
    m: usize,
    field: Seq<char>,
)
    requires
        more.len() <= usize::MAX,
        parents_ok(nodes),
        workspace.tree_ok(nodes),
        nodes_added(nodes, more, at, count),
        m < nodes.len(),
    ensures
        same_use(workspace, nodes, m, more, shifted(at, count)(m), field),
{
    let to = shifted(at, count);
    assert(node_moved(to, nodes[m as int], more[to(m) as int]));
    lemma_added_self_field(workspace, nodes, more, at, count, m, field);
    lemma_added_context(workspace, nodes, more, at, count, m);
    lemma_added_callee(workspace, nodes, more, at, count, m);
    lemma_added_target(workspace, nodes, more, at, count, m, field);
}

/// Adding nodes does not change the context of a node.
proof fn lemma_added_context(
    workspace: Workspace,
    nodes: Seq<Node>,
    more: Seq<Node>,
    at: int,
    count: int,
    m: usize,
)
    requires
        more.len() <= usize::MAX,
        parents_ok(nodes),
        workspace.tree_ok(nodes),
        nodes_added(nodes, more, at, count),
        m < nodes.len(),
    ensures
        use_context(nodes, m) == use_context(more, shifted(at, count)(m)),
{
    let to = shifted(at, count);
    let n = to(m);
    assert(node_moved(to, nodes[m as int], more[n as int]));
    assert(parent_ok(nodes, m as int));
    if nodes[m as int].parent is Some {
        let p = nodes[m as int].parent->0;
        assert(node_moved(to, nodes[p as int], more[to(p) as int]));
        assert(parent_ok(nodes, p as int));
        if nodes[p as int].kind is ParenExpr && nodes[p as int].parent is Some {
            let q = nodes[p as int].parent->0;
            assert(surrounding(nodes, m as int) == Some(q));
            assert(surrounding(more, n as int) == Some(to(q)));
            lemma_added_around(workspace, nodes, more, at, count, m, q);
        } else {
            assert(surrounding(nodes, m as int) == Some(p));
            assert(surrounding(more, n as int) == Some(to(p)));
            lemma_added_around(workspace, nodes, more, at, count, m, p);
        }
    }
}

/// Adding nodes does not change what the node around another one makes of it.
proof fn lemma_added_around(
    workspace: Workspace,
    nodes: Seq<Node>,
    more: Seq<Node>,
    at: int,
    count: int,
    m: usize,
    around: usize,
)
    requires
        more.len() <= usize::MAX,
        parents_ok(nodes),
        workspace.tree_ok(nodes),
        nodes_added(nodes, more, at, count),
        m < nodes.len(),
        around < nodes.len(),
        surrounding(nodes, m as int) == Some(around),
        surrounding(more, shifted(at, count)(m) as int) == Some(shifted(at, count)(around)),
    ensures
        use_context(nodes, m) == use_context(more, shifted(at, count)(m)),
{
    let to = shifted(at, count);
    let n = to(m);
    assert(node_moved(to, nodes[m as int], more[n as int]));
    assert(node_moved(to, nodes[around as int], more[to(around) as int]));
    assert(workspace.node_ok(nodes, around as int));
    let p = nodes[m as int].parent->0;
    assert(parent_ok(nodes, m as int));
    assert(node_moved(to, nodes[p as int], more[to(p) as int]));
    assert forall|link: Option<usize>, new: Option<usize>|
        (link matches Some(l) ==> l < nodes.len()) && #[trigger] link_moved(
            to,
            link,
            new,
        ) implies leads_to(nodes, link, m) == leads_to(more, new, n) by {
    }
    if nodes[around as int].parent is Some {
        let c = nodes[around as int].parent->0;
        assert(parent_ok(nodes, around as int));
        lemma_added_callee(workspace, nodes, more, at, count, c);
    }
    assert(constructor_args(nodes, around as int) == constructor_args(more, to(around) as int));
}

/// Adding nodes does not change whether a node calls something with `self.field`.
proof fn lemma_added_target(
    workspace: Workspace,
    nodes: Seq<Node>,
    more: Seq<Node>,
    at: int,
    count: int,
    m: usize,
    field: Seq<char>,
)
    requires
        more.len() <= usize::MAX,
        parents_ok(nodes),
        workspace.tree_ok(nodes),
        nodes_added(nodes, more, at, count),
        m < nodes.len(),
    ensures
        targets_self_field(nodes, m as int, field) == targets_self_field(
            more,
            shifted(at, count)(m) as int,
            field,
        ),
{
    let to = shifted(at, count);
    let n = to(m);
    assert(node_moved(to, nodes[m as int], more[n as int]));
    assert(workspace.node_ok(nodes, m as int));
    if nodes[m as int].kind is Call && nodes[m as int].kind->Call_0.args is Some {
        let args = nodes[m as int].kind->Call_0.args->0@;
        let new_args = more[n as int].kind->Call_0.args->0@;
        assert forall|k: int| 0 <= k < args.len() implies argument_is_self_field(
            nodes,
            #[trigger] args[k] as int,
            field,
        ) == argument_is_self_field(more, new_args[k] as int, field) by {
            assert(nodes[m as int].kind->Call_0.args->0@[k] == args[k]);
            assert(new_args[k] == to(args[k]));
            lemma_added_argument(workspace, nodes, more, at, count, args[k], field);
        }
        if targets_self_field(nodes, m as int, field) {
            let k = choose|k: int|
                0 <= k < args.len() && argument_is_self_field(
                    nodes,
                    #[trigger] args[k] as int,
                    field,
                );
            assert(argument_is_self_field(more, new_args[k] as int, field));
        }
        if targets_self_field(more, n as int, field) {
            let k = choose|k: int|
                0 <= k < new_args.len() && argument_is_self_field(
                    more,
                    #[trigger] new_args[k] as int,
                    field,
                );
            assert(argument_is_self_field(nodes, args[k] as int, field));
        }
    }
}

/// Adding nodes does not change whether an argument is `self.field` or a reference to it.
proof fn lemma_added_argument(
    workspace: Workspace,
    nodes: Seq<Node>,
    more: Seq<Node>,
    at: int,
    count: int,
    m: usize,
    field: Seq<char>,
)
    requires
        more.len() <= usize::MAX,
        parents_ok(nodes),
        workspace.tree_ok(nodes),
        nodes_added(nodes, more, at, count),
        m < nodes.len(),
    ensures
        argument_is_self_field(nodes, m as int, field) == argument_is_self_field(
            more,
            shifted(at, count)(m) as int,
            field,
        ),
{
    let to = shifted(at, count);
    assert(node_moved(to, nodes[m as int], more[to(m) as int]));
    assert(workspace.node_ok(nodes, m as int));
    lemma_added_self_field(workspace, nodes, more, at, count, m, field);
    if nodes[m as int].kind is RefExpr && nodes[m as int].kind->RefExpr_expr is Some {
        let e = nodes[m as int].kind->RefExpr_expr->0;
        assert(node_moved(to, nodes[e as int], more[to(e) as int]));
        assert(workspace.node_ok(nodes, e as int));
        lemma_added_self_field(workspace, nodes, more, at, count, e, field);
        if nodes[e as int].kind is ParenExpr && nodes[e as int].kind->ParenExpr_expr is Some {
            let place = nodes[e as int].kind->ParenExpr_expr->0;
            lemma_added_self_field(workspace, nodes, more, at, count, place, field);
        }
    }
}

/// Adding nodes does not change whether a node is `self.field`.
proof fn lemma_added_self_field(
    workspace: Workspace,
    nodes: Seq<Node>,
    more: Seq<Node>,
    at: int,
    count: int,
    m: usize,
    field: Seq<char>,
)
    requires
        more.len() <= usize::MAX,
        workspace.tree_ok(nodes),
        nodes_added(nodes, more, at, count),
        m < nodes.len(),
    ensures
        self_field(nodes, m as int, field) == self_field(
            more,
            shifted(at, count)(m) as int,
            field,
        ),
{
    let to = shifted(at, count);
    assert(node_moved(to, nodes[m as int], more[to(m) as int]));
    assert(workspace.node_ok(nodes, m as int));
    if nodes[m as int].kind is Field && nodes[m as int].kind->Field_0.expr is Some {
        let e = nodes[m as int].kind->Field_0.expr->0;
        assert(node_moved(to, nodes[e as int], more[to(e) as int]));
    }
}

/// Adding nodes does not change what a node calls.
proof fn lemma_added_callee(
    workspace: Workspace,
    nodes: Seq<Node>,
    more: Seq<Node>,
    at: int,
    count: int,
    m: usize,
)
    requires
        more.len() <= usize::MAX,
        workspace.tree_ok(nodes),
        nodes_added(nodes, more, at, count),
        m < nodes.len(),
    ensures
        callee_function(nodes, m as int) == callee_function(more, shifted(at, count)(m) as int),
        constructs(nodes, m as int) == constructs(more, shifted(at, count)(m) as int),
{
    let to = shifted(at, count);
    assert(node_moved(to, nodes[m as int], more[to(m) as int]));
    assert(workspace.node_ok(nodes, m as int));
    if nodes[m as int].kind is Call && nodes[m as int].kind->Call_0.callee is Some {
        let c = nodes[m as int].kind->Call_0.callee->0;
        assert(node_moved(to, nodes[c as int], more[to(c) as int]));
    }
}

/// What is done to other fields does not count against a field: adding code that does not use
/// `self.field`, such as one more statement in `drop`, keeps the verdict on it.
pub proof fn law_added_code(
    workspace: Workspace,
    file: int,
    more_file: int,
    at: int,
    count: int,
    body: usize,
    field: Seq<char>,
)
    requires
        workspace.wf(),
        0 <= file < workspace.files@.len(),
        body < workspace.tree(file).len(),
        nodes_added(workspace.tree(file), workspace.tree(more_file), at, count),
        forall|i: usize|
            at <= i < at + count ==> !#[trigger] mentions_field(
                workspace.tree(more_file),
                i,
                field,
            ),
    ensures
        same_verdict(
            workspace.body_verdict(workspace.tree(file), body, field),
            workspace.body_verdict(
                workspace.tree(more_file),
                shifted(at, count)(body),
                field,
            ),
        ),
{
    let nodes = workspace.tree(file);
    let more = workspace.tree(more_file);
    let to = shifted(at, count);
    assert(more.len() == workspace.files@[more_file].nodes.len());
    lemma_parents_ok(workspace, file);
    assert(workspace.tree_ok(workspace.tree(file)));
    assert forall|m: usize| #[trigger] uses_field(nodes, body, m, field) implies uses_field(
        more,
        to(body),
        to(m),
        field,
    ) && same_use(workspace, nodes, m, more, to(m), field) by {
        lemma_added_within(nodes, more, at, count, m, body);
        lemma_added_use(workspace, nodes, more, at, count, m, field);
    }
    assert forall|n: usize| #[trigger] uses_field(more, to(body), n, field) implies exists|m: usize|
        #[trigger] uses_field(nodes, body, m, field) && to(m) == n by {
        let m: usize = if n < at {
            n
        } else {
            (n - count) as usize
        };
        assert(!(at <= n < at + count));
        assert(to(m) == n);
        lemma_added_within(nodes, more, at, count, m, body);
        lemma_added_use(workspace, nodes, more, at, count, m, field);
        assert(uses_field(nodes, body, m, field));
    }
    law_same_uses(workspace, file, body, more_file, to(body), field, to);
}

/// Every structurally pinned field that a `Drop` impl certainly moves is reported, at the place
/// of the move.
pub proof fn law_drop_moves_reported(
    workspace: Workspace,
    file_id: u32,
    nodes: Seq<Node>,
    m: int,
    fields: Seq<Seq<char>>,
    field: Seq<char>,
    site: TextRange,
    kind: MovePatternKind,
)
    requires
        fields.contains(field),
        workspace.drop_verdict(nodes, nodes[m].kind->Impl_0, field) == (
        DropVerdict::DefinitelyMoves { site, kind }),
    ensures
        workspace.drop_diagnostics(file_id, nodes, m, fields).contains(
            move_diagnostic(file_id, field, site, kind),
        ),
{
    let pick = workspace.certain_move(file_id, nodes, nodes[m].kind->Impl_0);
    let k = choose|k: int| 0 <= k < fields.len() && fields[k] == field;
    assert(pick(fields[k]) == Some(move_diagnostic(file_id, field, site, kind)));
    lemma_filter_map_contains(fields, pick, move_diagnostic(file_id, field, site, kind));
}

/// Where an inherent impl of a file pins a field structurally and a `Drop` impl of the same type
/// in that file certainly moves it, the check of the file reports the move.
pub proof fn law_moved_field_in_file(
    workspace: Workspace,
    file: int,
    m: usize,
    adt: usize,
    p: int,
    i: int,
    field: Seq<char>,
    site: TextRange,
    kind: MovePatternKind,
)
    requires
        m < workspace.tree(file).len(),
        workspace.tree(file)[m as int].kind matches NodeKind::Impl(item) && (
        item.trait_type matches Some(ty) && workspace.trait_kind(ty) == Some(TraitKind::Drop)) && (
        item.self_type matches Some(ty) && named_adt(ty) == Some(adt))
            && workspace.drop_verdict(workspace.tree(file), item, field) == (
        DropVerdict::DefinitelyMoves { site, kind }),
        0 <= p < workspace.tree(file).len(),
        pins_field(workspace, workspace.tree(file), adt, p, i, field),
    ensures
        workspace.broken_trait_impls(file).contains(
            move_diagnostic(workspace.files@[file].file_id, field, site, kind),
        ),
{
    let nodes = workspace.tree(file);
    let file_id = workspace.files@[file].file_id;
    let fields = workspace.structural_fields(nodes, adt);
    let diagnostic = move_diagnostic(file_id, field, site, kind);
    assert(nodes.len() == workspace.files@[file].nodes.len());
    law_structural_fields(workspace, file, adt, field);
    law_drop_moves_reported(workspace, file_id, nodes, m as int, fields, field, site, kind);
    assert(workspace.trait_impl_at(file)(m).contains(diagnostic));
    lemma_pass(nodes.len(), workspace.trait_impl_at(file), diagnostic);
}

/// A `Drop` impl gives strong diagnostics or the hint, never both: if a field is certainly
/// moved, every diagnostic is about such a field; otherwise there is at most the one hint, and
/// it is there exactly when a field may be moved.
pub proof fn law_drop_hint_or_moves(
    workspace: Workspace,
    file_id: u32,
    nodes: Seq<Node>,
    m: int,
    fields: Seq<Seq<char>>,
)
    ensures
        ({
            let item = nodes[m].kind->Impl_0;
            let found = workspace.drop_diagnostics(file_id, nodes, m, fields);
            let moved = exists|i: int|
                0 <= i < fields.len() && workspace.drop_verdict(
                    nodes,
                    item,
                    #[trigger] fields[i],
                ) is DefinitelyMoves;
            &&& moved ==> forall|k: int|
                0 <= k < found.len() ==> exists|i: int, site: TextRange, kind: MovePatternKind|
                    0 <= i < fields.len() && workspace.drop_verdict(nodes, item, fields[i]) == (
                    DropVerdict::DefinitelyMoves { site, kind }) && #[trigger] found[k]
                        == #[trigger] move_diagnostic(file_id, fields[i], site, kind)
            &&& !moved && workspace.may_move(nodes, item, fields) ==> found.len() == 1
                && found[0].code == "pin-drop-on-structural"@ && found[0].severity
                == Severity::WeakWarning && found[0].range == (FileRange {
                file_id,
                range: impl_header(item, nodes[m].range),
            })
            &&& !moved && !workspace.may_move(nodes, item, fields) ==> found.len() == 0
        }),
{
    let item = nodes[m].kind->Impl_0;
    let found = workspace.drop_diagnostics(file_id, nodes, m, fields);
    let pick = workspace.certain_move(file_id, nodes, item);
    let moves = fields.filter_map(pick);
    lemma_filter_map_empty(fields, pick);
    let moved = exists|i: int|
        0 <= i < fields.len() && workspace.drop_verdict(
            nodes,
            item,
            #[trigger] fields[i],
        ) is DefinitelyMoves;
    if moved {
        let i = choose|i: int|
            0 <= i < fields.len() && workspace.drop_verdict(
                nodes,
                item,
                #[trigger] fields[i],
            ) is DefinitelyMoves;
        assert(pick(fields[i]) is Some);
        assert(moves.len() > 0);
        assert forall|k: int| 0 <= k < found.len() implies exists|
            i: int,
            site: TextRange,
            kind: MovePatternKind,
        |
            0 <= i < fields.len() && workspace.drop_verdict(nodes, item, fields[i]) == (
            DropVerdict::DefinitelyMoves { site, kind }) && #[trigger] found[k]
                == #[trigger] move_diagnostic(file_id, fields[i], site, kind) by {
            assert(moves.contains(found[k]));
            lemma_filter_map_contains(fields, pick, found[k]);
            let i = choose|i: int|
                0 <= i < fields.len() && #[trigger] pick(fields[i]) == Some(found[k]);
            match workspace.drop_verdict(nodes, item, fields[i]) {
                DropVerdict::DefinitelyMoves { site, kind } => {
                    assert(found[k] == move_diagnostic(file_id, fields[i], site, kind));
                },
                _ => {},
            }
        }
    } else {
        assert forall|i: int| 0 <= i < fields.len() implies #[trigger] pick(fields[i]) is None by {
            assert(!(workspace.drop_verdict(nodes, item, fields[i]) is DefinitelyMoves));
        }
    }
}

/// A `Drop` impl that moves none of the structurally pinned fields gives no diagnostic.
pub proof fn law_harmless_drop(
    workspace: Workspace,
    file_id: u32,
    nodes: Seq<Node>,
    m: int,
    fields: Seq<Seq<char>>,
)
    requires
        forall|i: int|
            0 <= i < fields.len() ==> workspace.drop_verdict(
                nodes,
                nodes[m].kind->Impl_0,
                #[trigger] fields[i],
            ) == DropVerdict::NoMove,
    ensures
        workspace.drop_diagnostics(file_id, nodes, m, fields) == Seq::<DiagnosticView>::empty(),
{
    law_drop_hint_or_moves(workspace, file_id, nodes, m, fields);
    assert(workspace.drop_diagnostics(file_id, nodes, m, fields) =~= Seq::empty());
}

// ---------------------------------------------------------------------------
// `Unpin` impls
// ---------------------------------------------------------------------------

/// Whether a field needs a bound in a manual `Unpin` impl: it is structurally pinned and its
/// type is a generic parameter.
pub open spec fn needs_bound(field: RecordField, structural: Seq<Seq<char>>) -> bool {
    &&& field.name matches Some(name)
    &&& structural.contains(name@)
    &&& field.ty matches Some(ty)
    &&& generic_param(ty)
}

/// An `Unpin` impl of a struct is accepted exactly when its bounds cover the type of every
/// field that needs it.
pub proof fn law_unpin_bounds(
    workspace: Workspace,
    file_id: u32,
    nodes: Seq<Node>,
    m: int,
    adt: usize,
    structural: Seq<Seq<char>>,
)
    requires
        workspace.adts@[adt as int].kind == AdtKind::Struct,
        workspace.adts@[adt as int].record_fields is Some,
    ensures
        ({
            let item = nodes[m].kind->Impl_0;
            let fields = workspace.adts@[adt as int].record_fields->0@;
            workspace.unpin_diagnostics(file_id, nodes, m, adt, structural).len() == 0 <==> (
            forall|k: int|
                0 <= k < fields.len() && #[trigger] needs_bound(fields[k], structural)
                    ==> workspace.unpin_bounded_types(item).contains(fields[k].ty->0.text@))
        }),
{
    let item = nodes[m].kind->Impl_0;
    let fields = workspace.adts@[adt as int].record_fields->0@;
    let bounded = workspace.unpin_bounded_types(item);
    let pick = missing_bound(structural, bounded);
    lemma_filter_map_empty(fields, pick);
    assert forall|k: int| 0 <= k < fields.len() implies (#[trigger] pick(fields[k]) is None
        <==> (needs_bound(fields[k], structural) ==> bounded.contains(
        fields[k].ty->0.text@,
    ))) by {
    }
    if forall|k: int|
        0 <= k < fields.len() && #[trigger] needs_bound(fields[k], structural) ==> bounded.contains(
            fields[k].ty->0.text@,
        ) {
        assert forall|k: int| 0 <= k < fields.len() implies #[trigger] pick(fields[k]) is None by {
            if needs_bound(fields[k], structural) {
                assert(bounded.contains(fields[k].ty->0.text@));
            }
        }
    }
    if forall|k: int| 0 <= k < fields.len() ==> #[trigger] pick(fields[k]) is None {
        assert forall|k: int|
            0 <= k < fields.len() && #[trigger] needs_bound(
                fields[k],
                structural,
            ) implies bounded.contains(fields[k].ty->0.text@) by {
            assert(pick(fields[k]) is None);
        }
    }
}

/// Whether a parameter of an impl is called `text` and bounded by `Unpin`.
pub open spec fn bounds_param(workspace: Workspace, param: TypeParam, text: Seq<char>) -> bool {
    text_is(param.name, text) && workspace.unpin_among(param.bounds)
}

/// Whether a predicate of a `where` clause bounds a type, as written, by `Unpin`.
pub open spec fn bounds_type(
    workspace: Workspace,
    predicate: WherePredicate,
    text: Seq<char>,
) -> bool {
    predicate.ty matches Some(ty) && ty.text@ == text && workspace.unpin_among(predicate.bounds)
}

/// A type counts as bounded exactly when it is a parameter with the bound `Unpin`, or a predicate
/// of the `where` clause bounds it by `Unpin`.
pub proof fn law_unpin_bounded_types(workspace: Workspace, item: ImplItem, text: Seq<char>)
    ensures
        workspace.unpin_bounded_types(item).contains(text) <==> (exists|k: int|
            0 <= k < item.type_params@.len() && #[trigger] bounds_param(
                workspace,
                item.type_params@[k],
                text,
            )) || (item.where_predicates is Some && exists|k: int|
            0 <= k < item.where_predicates->0@.len() && #[trigger] bounds_type(
                workspace,
                item.where_predicates->0@[k],
                text,
            )),
{
    let params = item.type_params@;
    let predicates = item.where_predicates->0@;
    let pick_param = workspace.unpin_param();
    let pick = workspace.unpin_predicate();
    let first = params.filter_map(pick_param);
    let second = workspace.unpin_predicates(item);
    lemma_with_elements(Seq::empty(), first + second);
    lemma_add_contains(first, second, text);
    lemma_filter_map_contains(params, pick_param, text);
    lemma_filter_map_contains(predicates, pick, text);
    if exists|k: int| 0 <= k < params.len() && #[trigger] pick_param(params[k]) == Some(text) {
        let k = choose|k: int|
            0 <= k < params.len() && #[trigger] pick_param(params[k]) == Some(text);
        assert(bounds_param(workspace, item.type_params@[k], text));
    }
    if exists|k: int|
        0 <= k < item.type_params@.len() && #[trigger] bounds_param(
            workspace,
            item.type_params@[k],
            text,
        ) {
        let k = choose|k: int|
            0 <= k < item.type_params@.len() && #[trigger] bounds_param(
                workspace,
                item.type_params@[k],
                text,
            );
        assert(pick_param(params[k]) == Some(text));
    }
    if exists|k: int| 0 <= k < predicates.len() && #[trigger] pick(predicates[k]) == Some(text) {
        let k = choose|k: int|
            0 <= k < predicates.len() && #[trigger] pick(predicates[k]) == Some(text);
        assert(bounds_type(workspace, item.where_predicates->0@[k], text));
    }
    if exists|k: int|
        0 <= k < item.where_predicates->0@.len() && #[trigger] bounds_type(
            workspace,
            item.where_predicates->0@[k],
            text,
        ) {
        let k = choose|k: int|
            0 <= k < item.where_predicates->0@.len() && #[trigger] bounds_type(
                workspace,
                item.where_predicates->0@[k],
                text,
            );
        assert(pick(predicates[k]) == Some(text));
    }
}

/// Whether member `j` of impl `k` of a type projects to a field.
pub open spec fn impl_projects(
    workspace: Workspace,
    adt: usize,
    k: int,
    j: int,
    field: Seq<char>,
) -> bool {
    let imp = workspace.adts@[adt as int].impls@[k];
    &&& 0 <= k < workspace.adts@[adt as int].impls@.len()
    &&& !imp.is_trait_impl
    &&& 0 <= j < imp.items@.len()
    &&& workspace.projected_by_member()(imp.items@[j]).contains(field)
}

/// A field counts as structurally pinned for the soundness of `Unpin` exactly when a method of
/// an inherent impl, in whatever file, projects to it; no field is listed twice.
pub proof fn law_cross_file_fields(workspace: Workspace, adt: usize, field: Seq<char>)
    ensures
        workspace.cross_file_fields(adt).no_duplicates(),
        workspace.cross_file_fields(adt).contains(field) <==> exists|k: int, j: int|
            #[trigger] impl_projects(workspace, adt, k, j, field),
{
    let impls = workspace.adts@[adt as int].impls@;
    let part = workspace.projected_by_impl();
    let member = workspace.projected_by_member();
    lemma_with_elements(Seq::empty(), concat_map(impls, part));
    lemma_concat_map_contains(impls, part, field);
    if workspace.cross_file_fields(adt).contains(field) {
        let k = choose|k: int| 0 <= k < impls.len() && #[trigger] part(impls[k]).contains(field);
        let items = impls[k].items@;
        lemma_concat_map_contains(items, member, field);
        let j = choose|j: int| 0 <= j < items.len() && #[trigger] member(items[j]).contains(field);
        assert(impl_projects(workspace, adt, k, j, field));
    }
    if exists|k: int, j: int| #[trigger] impl_projects(workspace, adt, k, j, field) {
        let (k, j) = choose|k: int, j: int|
            #[trigger] impl_projects(workspace, adt, k, j, field);
        let items = impls[k].items@;
        assert(member(items[j]).contains(field));
        lemma_concat_map_contains(items, member, field);
        assert(part(impls[k]).contains(field));
    }
}

/// Whether a field makes a manual `Unpin` impl unsound.
pub open spec fn field_offends(
    workspace: Workspace,
    item: ImplItem,
    adt: usize,
    unpin_trait: usize,
    field: FieldDef,
) -> bool {
    &&& workspace.cross_file_fields(adt).contains(field.name@)
    &&& !workspace.unpin_bounded_types(item).contains(field.ty.display@)
    &&& !implements(field.ty, unpin_trait)
}

/// An `Unpin` impl of a struct is reported as unsound exactly when the struct has a field that
/// some inherent impl pins structurally, that no bound covers and whose type is not `Unpin`. In
/// which files the struct and its inherent impls are written plays no part.
pub proof fn law_unsound_unpin(
    workspace: Workspace,
    file: int,
    m: usize,
    adt: usize,
    unpin_trait: usize,
)
    requires
        workspace.tree(file)[m as int].kind matches NodeKind::Impl(item) && (
        item.trait_type matches Some(trait_type) && workspace.unpin_trait_path(trait_type)) && (
        item.self_type matches Some(self_type) && named_adt(self_type) == Some(adt)),
        workspace.adts@[adt as int].kind == AdtKind::Struct,
        workspace.marker_trait("Unpin"@) == Some(unpin_trait),
    ensures
        ({
            let item = workspace.tree(file)[m as int].kind->Impl_0;
            let fields = workspace.adts@[adt as int].fields@;
            workspace.unsound_unpin_at(file)(m).len() > 0 <==> exists|k: int|
                0 <= k < fields.len() && #[trigger] field_offends(
                    workspace,
                    item,
                    adt,
                    unpin_trait,
                    fields[k],
                )
        }),
{
    let item = workspace.tree(file)[m as int].kind->Impl_0;
    let fields = workspace.adts@[adt as int].fields@;
    let pick = offending(
        workspace.cross_file_fields(adt),
        workspace.unpin_bounded_types(item),
        unpin_trait,
    );
    lemma_filter_map_empty(fields, pick);
    assert(workspace.offenders(item) == fields.filter_map(pick));
    if exists|k: int| 0 <= k < fields.len() && #[trigger] pick(fields[k]) is Some {
        let k = choose|k: int| 0 <= k < fields.len() && #[trigger] pick(fields[k]) is Some;
        assert(field_offends(workspace, item, adt, unpin_trait, fields[k]));
    }
    if exists|k: int|
        0 <= k < fields.len() && #[trigger] field_offends(
            workspace,
            item,
            adt,
            unpin_trait,
            fields[k],
        ) {
        let k = choose|k: int|
            0 <= k < fields.len() && #[trigger] field_offends(
                workspace,
                item,
                adt,
                unpin_trait,
                fields[k],
            );
        assert(pick(fields[k]) is Some);
    }
}

// ---------------------------------------------------------------------------
// Calls
// ---------------------------------------------------------------------------

/// The diagnostics about misuse are those of the single calls.
pub proof fn law_misuse_of_calls(workspace: Workspace, file: int, diagnostic: DiagnosticView)
    ensures
        workspace.misuse(file).contains(diagnostic) <==> exists|m: usize|
            m < workspace.tree(file).len() && #[trigger] workspace.misuse_at(file)(m).contains(
                diagnostic,
            ),
{
    assert(workspace.tree(file).len() == workspace.files@[file].nodes.len());
    lemma_pass(workspace.tree(file).len(), workspace.misuse_at(file), diagnostic);
}

/// `Pin::new` on a pointer to a value whose type is `Unpin` gives no diagnostic.
pub proof fn law_pin_new_on_unpin(
    workspace: Workspace,
    file_id: u32,
    nodes: Seq<Node>,
    m: int,
    unpin_trait: usize,
)
    requires
        workspace.marker_trait("Unpin"@) == Some(unpin_trait),
        nodes[m].kind matches NodeKind::Call(call) && (call.args matches Some(args) && args@.len()
            > 0 && (nodes[args@[0] as int].ty matches Some(ty) && pinned_implements(
            ty,
            unpin_trait,
        ))),
    ensures
        workspace.pin_new_diagnostics(file_id, nodes, m) == Seq::<DiagnosticView>::empty(),
{
}

/// Every diagnostic about `Pin::new` offers one fix, which writes `Box::pin` in place of the path
/// that names the function, in the file that is checked.
pub proof fn law_pin_new_fix(workspace: Workspace, file_id: u32, nodes: Seq<Node>, m: int)
    requires
        workspace.pins_non_unpin(nodes, m),
    ensures
        ({
            let found = workspace.pin_new_diagnostics(file_id, nodes, m);
            &&& found.len() == 1
            &&& found[0].fixes matches Some(fixes)
            &&& fixes.len() == 1
            &&& fixes[0].replaced.file_id == file_id
            &&& fixes[0].target == nodes[m].range
            &&& nodes[m].kind->Call_0.callee matches Some(callee)
            &&& nodes[callee as int].kind matches NodeKind::PathExpr(Some(path))
            &&& fixes[0].replaced.range == path.range
            &&& fixes[0].replacement == "Box::pin"@
        }),
{
}

/// A call that was expanded from a macro of the `pin-project` family, wherever the macro is
/// called, is no projection by hand.
pub proof fn law_pin_project_macros(workspace: Workspace, nodes: Seq<Node>, m: int, k: int)
    requires
        call_site(nodes[m].kind) matches Some(site) && 0 <= k < site.expansions@.len()
            && pin_project_crate(site.expansions@[k].defined_in),
    ensures
        workspace.hand_rolled_diagnostics(nodes, m) == Seq::<DiagnosticView>::empty(),
{
    let site = call_site(nodes[m].kind)->0;
    assert(pin_project_expansion(site.expansions@[k]));
}

/// A call of `Pin::new_unchecked` in an unsafe function, or one that was expanded from a
/// macro call that is known to pin soundly, gives no hint.
pub proof fn law_justified_new_unchecked(workspace: Workspace, file: int, m: usize)
    requires
        inside_unsafe_fn(workspace.tree(file), m as int) || (
        workspace.tree(file)[m as int].kind matches NodeKind::Call(call) && from_pin_macro(
            call.site,
        )),
    ensures
        workspace.new_unchecked_at(file)(m) == Seq::<DiagnosticView>::empty(),
{
}

/// The diagnostics about `Unpin` impls and `Pin::new_unchecked` are those of the single impls and
/// calls.
pub proof fn law_unpin_of_nodes(workspace: Workspace, file: int, diagnostic: DiagnosticView)
    ensures
        (workspace.unsound_unpin_impls(file) + workspace.new_unchecked_calls(file)).contains(
            diagnostic,
        ) <==> (exists|m: usize|
            m < workspace.tree(file).len() && #[trigger] workspace.unsound_unpin_at(file)(m).contains(
                diagnostic,
            )) || (exists|m: usize|
            m < workspace.tree(file).len() && #[trigger] workspace.new_unchecked_at(file)(m).contains(
                diagnostic,
            )),
{
    assert(workspace.tree(file).len() == workspace.files@[file].nodes.len());
    let len = workspace.tree(file).len();
    lemma_add_contains(
        workspace.unsound_unpin_impls(file),
        workspace.new_unchecked_calls(file),
        diagnostic,
    );
    lemma_pass(len, workspace.unsound_unpin_at(file), diagnostic);
    lemma_pass(len, workspace.new_unchecked_at(file), diagnostic);
}

/// The function that counts for `Pin::new_unchecked` is the closest one: whatever stands in the
/// body of a function, and not in a function inside it, is judged by that function alone.
pub proof fn law_closest_fn(nodes: Seq<Node>, m: int, f: int)
    requires
        within(nodes, m, f),
        m != f,
        nodes[f].kind is FnItem,
        forall|n: int| n != f && n != m && #[trigger] within(nodes, m, n) && within(nodes, n, f)
            ==> !(nodes[n].kind is FnItem),
    ensures
        inside_unsafe_fn(nodes, m) == nodes[f].kind->FnItem_0.is_unsafe,
    decreases m,
{
    let p = nodes[m].parent->0 as int;
    assert(within(nodes, p, f));
    assert(within(nodes, p, p));
    assert(within(nodes, m, p));
    if p != f {
        lemma_within_order(nodes, p, f);
        assert(!(nodes[p].kind is FnItem));
        assert forall|n: int|
            n != f && n != p && #[trigger] within(nodes, p, n) && within(nodes, n, f) implies !(
        nodes[n].kind is FnItem) by {
            assert(within(nodes, m, n));
            lemma_within_order(nodes, p, n);
        }
        law_closest_fn(nodes, p, f);
    }
}

// ---------------------------------------------------------------------------
// What each check can say
// ---------------------------------------------------------------------------

/// The check for misuse reports hand-rolled projections as weak warnings and `Pin::new` as an
/// error, and nothing else.
pub proof fn law_misuse_codes(workspace: Workspace, file: int, diagnostic: DiagnosticView)
    requires
        workspace.misuse(file).contains(diagnostic),
    ensures
        ({
            ||| diagnostic.code == "pin-hand-rolled-projection"@ && diagnostic.severity
                == Severity::WeakWarning && diagnostic.fixes is None
            ||| diagnostic.code == "pin-new-on-non-unpin"@ && diagnostic.severity
                == Severity::Error && diagnostic.fixes is Some
        }),
{
    law_misuse_of_calls(workspace, file, diagnostic);
    let m = choose|m: usize|
        m < workspace.tree(file).len() && #[trigger] workspace.misuse_at(file)(m).contains(
            diagnostic,
        );
    let nodes = workspace.tree(file);
    let file_id = workspace.files@[file].file_id;
    let first = workspace.hand_rolled_diagnostics(nodes, m as int);
    let second = workspace.pin_new_diagnostics(file_id, nodes, m as int);
    lemma_add_contains(first, second, diagnostic);
    if second.contains(diagnostic) {
        law_pin_new_fix(workspace, file_id, nodes, m as int);
    }
}

/// The check for `Unpin` impls and `Pin::new_unchecked` reports the former as warnings and the
/// latter as weak warnings, all in the file that is checked and without fixes.
pub proof fn law_unpin_codes(workspace: Workspace, file: int, diagnostic: DiagnosticView)
    requires
        (workspace.unsound_unpin_impls(file) + workspace.new_unchecked_calls(file)).contains(
            diagnostic,
        ),
    ensures
        diagnostic.range.file_id == workspace.files@[file].file_id,
        diagnostic.fixes is None,
        ({
            ||| diagnostic.code == "pin-unsound-unpin-impl"@ && diagnostic.severity
                == Severity::Warning
            ||| diagnostic.code == "pin-new-unchecked-unjustified"@ && diagnostic.severity
                == Severity::WeakWarning
        }),
{
    law_unpin_of_nodes(workspace, file, diagnostic);
}

/// The check for consistency reports everything as a warning but the hint about `Drop`, all in
/// the file that is checked and without fixes.
pub proof fn law_consistency_codes(workspace: Workspace, file: int, diagnostic: DiagnosticView)
    requires
        (workspace.inconsistent_projections(file) + workspace.broken_trait_impls(file)).contains(
            diagnostic,
        ),
    ensures
        diagnostic.range.file_id == workspace.files@[file].file_id,
        diagnostic.fixes is None,
        ({
            ||| diagnostic.code == "pin-inconsistent-projection"@ && diagnostic.severity
                == Severity::Warning
            ||| diagnostic.code == "pin-drop-moves-pinned-field"@ && diagnostic.severity
                == Severity::Warning
            ||| diagnostic.code == "pin-drop-on-structural"@ && diagnostic.severity
                == Severity::WeakWarning
            ||| diagnostic.code == "pin-unpin-without-bounds"@ && diagnostic.severity
                == Severity::Warning
        }),
{
    let nodes = workspace.tree(file);
    let file_id = workspace.files@[file].file_id;
    law_consistency_of_impls(workspace, file, diagnostic);
    if exists|m: usize|
        m < nodes.len() && #[trigger] workspace.inconsistent_at(file)(m).contains(diagnostic) {
        let m = choose|m: usize|
            m < nodes.len() && #[trigger] workspace.inconsistent_at(file)(m).contains(diagnostic);
        law_inconsistency_is_real(
            workspace,
            file,
            nodes[m as int].kind->Impl_0,
            diagnostic,
        );
    } else {
        let m = choose|m: usize|
            m < nodes.len() && #[trigger] workspace.trait_impl_at(file)(m).contains(diagnostic);
        let item = nodes[m as int].kind->Impl_0;
        let adt = named_adt(item.self_type->0)->0;
        let fields = workspace.structural_fields(nodes, adt);
        let pick = workspace.certain_move(file_id, nodes, item);
        lemma_filter_map_contains(fields, pick, diagnostic);
    }
}

} // verus!
