//! Fields that are projected in two ways, and `Drop` and `Unpin` impls that break a projection.
//!
//! A method that takes `self: Pin<&mut Self>` may treat a field as structurally pinned (it
//! projects with `map_unchecked_mut`) or as not pinned (it reaches the field through
//! `get_unchecked_mut`). Each field must be treated in one way only; a field that is
//! structurally pinned must not be moved by `Drop`, and must be covered by the bounds of a manual
//! `Unpin` impl.

use vstd::prelude::*;
use vstd::string::StringExecFns;

use crate::diagnostic::{emit, plain_diagnostic, views, Diagnostic, DiagnosticView, Severity};
use crate::facts::{
    closure_argument_body, closure_body, does_path_end_in, header_range, impl_header,
    is_core_or_std, core_or_std, named_adt, named_trait, path_ends_in, resolve_self_ty_to_adt,
    resolve_trait,
};
use crate::pin_drop_analysis::{build_move_diagnostic, move_diagnostic, DropVerdict};
use crate::sequences::{concat_map, indices, lemma_concat_map_step};
use crate::text::{
    contains_string, distinct, insert_string, is_text, join, joined, lemma_with_elements,
    lemma_with_elements_add, lemma_with_elements_push, same_text, text_is, texts, with_element,
    with_elements,
};
use crate::tree::{descendants, parent_ok, subtree};
use crate::wellformed::lemma_parents_ok;
use crate::workspace::{
    AdtKind, AssocItem, FileRange, FnItem, GenericArg, ImplItem, Node, NodeKind, RecordField,
    Resolution, TextRange, TypeKind, TypeSyntax, Workspace,
};

verus! {

/// A place at which a method projects to a field.
#[derive(Debug)]
pub struct ProjectionSite {
    pub field_name: String,
    pub method_name: String,
    pub range: TextRange,
}

/// The places at which a field is projected to.
#[derive(Debug)]
pub struct FieldClassification {
    pub structural_sites: Vec<ProjectionSite>,
    pub non_structural_sites: Vec<ProjectionSite>,
}

/// A field with the places at which it is projected to.
#[derive(Debug)]
pub struct FieldEntry {
    pub field_name: String,
    pub classification: FieldClassification,
}

/// The two ways to project.
#[derive(Clone, Copy, PartialEq, Eq, Structural, Debug)]
pub enum Bucket {
    StructuralSite,
    NonStructuralSite,
}

/// The traits whose impls are checked.
#[derive(Clone, Copy, PartialEq, Eq, Structural, Debug)]
pub enum TraitKind {
    Drop,
    Unpin,
}

// ---------------------------------------------------------------------------
// Meaning: projections
// ---------------------------------------------------------------------------

/// What a projection site says.
pub struct SiteView {
    pub field: Seq<char>,
    pub method: Seq<char>,
    pub range: TextRange,
}

/// A projection site with the way of projecting.
pub struct Projection {
    pub site: SiteView,
    pub bucket: Bucket,
}

/// What an entry for a field says.
pub struct EntryView {
    pub field: Seq<char>,
    pub structural: Seq<SiteView>,
    pub non_structural: Seq<SiteView>,
}

impl View for ProjectionSite {
    type V = SiteView;

    open spec fn view(&self) -> SiteView {
        SiteView { field: self.field_name@, method: self.method_name@, range: self.range }
    }
}

/// What the sites of a list say.
pub open spec fn site_views(sites: Seq<ProjectionSite>) -> Seq<SiteView> {
    sites.map_values(|site: ProjectionSite| site@)
}

impl View for FieldEntry {
    type V = EntryView;

    open spec fn view(&self) -> EntryView {
        EntryView {
            field: self.field_name@,
            structural: site_views(self.classification.structural_sites@),
            non_structural: site_views(self.classification.non_structural_sites@),
        }
    }
}

/// What the entries of a table say.
pub open spec fn entry_views(entries: Seq<FieldEntry>) -> Seq<EntryView> {
    entries.map_values(|entry: FieldEntry| entry@)
}

/// The fields of a table.
pub open spec fn entry_fields(entries: Seq<EntryView>) -> Seq<Seq<char>> {
    entries.map_values(|entry: EntryView| entry.field)
}

/// An entry with one more site.
pub open spec fn extended(entry: EntryView, projection: Projection) -> EntryView {
    match projection.bucket {
        Bucket::StructuralSite => EntryView {
            structural: entry.structural.push(projection.site),
            ..entry
        },
        Bucket::NonStructuralSite => EntryView {
            non_structural: entry.non_structural.push(projection.site),
            ..entry
        },
    }
}

/// An entry without sites.
pub open spec fn empty_entry(field: Seq<char>) -> EntryView {
    EntryView { field, structural: Seq::empty(), non_structural: Seq::empty() }
}

/// Adds a site to the entry of its field.
pub open spec fn extending(projection: Projection) -> spec_fn(EntryView) -> EntryView {
    |entry: EntryView|
        if entry.field == projection.site.field {
            extended(entry, projection)
        } else {
            entry
        }
}

/// A table with one more site: in the entry of its field, which is made if it is missing.
pub open spec fn recorded(table: Seq<EntryView>, projection: Projection) -> Seq<EntryView> {
    if entry_fields(table).contains(projection.site.field) {
        table.map_values(extending(projection))
    } else {
        table.push(extended(empty_entry(projection.site.field), projection))
    }
}

/// A table with more sites, recorded one after the other.
pub open spec fn all_recorded(table: Seq<EntryView>, projections: Seq<Projection>) -> Seq<
    EntryView,
>
    decreases projections.len(),
{
    if projections.len() == 0 {
        table
    } else {
        recorded(all_recorded(table, projections.drop_last()), projections.last())
    }
}

/// Picks the sites of a field and of one way of projecting.
pub open spec fn sites_of(field: Seq<char>, bucket: Bucket) -> spec_fn(Projection) -> Option<
    SiteView,
> {
    |projection: Projection|
        if projection.site.field == field && projection.bucket == bucket {
            Some(projection.site)
        } else {
            None
        }
}

/// The fields that are projected to.
pub open spec fn projected_fields(projections: Seq<Projection>) -> Seq<Seq<char>> {
    projections.map_values(|projection: Projection| projection.site.field)
}

/// The entry of a field: its sites, by the way of projecting.
pub open spec fn entry_for(projections: Seq<Projection>) -> spec_fn(Seq<char>) -> EntryView {
    |field: Seq<char>|
        EntryView {
            field,
            structural: projections.filter_map(sites_of(field, Bucket::StructuralSite)),
            non_structural: projections.filter_map(sites_of(field, Bucket::NonStructuralSite)),
        }
}

/// The sites by field, the fields in the order of their first site.
pub open spec fn by_field(projections: Seq<Projection>) -> Seq<EntryView> {
    distinct(projected_fields(projections)).map_values(entry_for(projections))
}

/// The first field of a chain of field expressions, `place.first.second.third`.
pub open spec fn chain_root(nodes: Seq<Node>, e: int) -> Option<Seq<char>>
    decreases nodes.len() - e,
{
    match nodes[e].kind {
        NodeKind::Field(access) => match access.expr {
            Some(inner) => if nodes[inner as int].kind is Field {
                if e < inner < nodes.len() {
                    chain_root(nodes, inner as int)
                } else {
                    None
                }
            } else {
                match access.name {
                    Some(name) => Some(name@),
                    None => None,
                }
            },
            None => None,
        },
        _ => None,
    }
}

/// The field that node `e` borrows from, for an expression `&mut place.field...`.
pub open spec fn borrowed_root(nodes: Seq<Node>, e: int) -> Option<Seq<char>> {
    match nodes[e].kind {
        NodeKind::RefExpr { mutable: true, expr: Some(inner) } => chain_root(nodes, inner as int),
        _ => None,
    }
}

/// Whether a generic argument is `&mut Self`.
pub open spec fn mut_ref_to_self(arg: GenericArg) -> bool {
    &&& arg matches GenericArg::Type(Some(ty))
    &&& ty.kind matches TypeKind::Ref { mutable: true, inner: Some(inner) }
    &&& inner.kind matches TypeKind::Path(Some(path))
    &&& path_ends_in(path, "Self"@)
}

/// The name of a method, or what stands for it.
pub open spec fn name_or(name: Option<String>, default: Seq<char>) -> Seq<char> {
    match name {
        Some(name) => name@,
        None => default,
    }
}

impl Workspace {
    /// Whether a function takes `self: Pin<&mut Self>`.
    pub open spec fn takes_pin_mut_self(self, function: FnItem) -> bool {
        &&& function.self_param_type matches Some(ty)
        &&& ty.kind matches TypeKind::Path(Some(path))
        &&& path.resolution matches Some(Resolution::Adt(adt))
        &&& self.pin_struct(adt)
        &&& path.segment matches Some(segment)
        &&& segment.generic_args matches Some(args)
        &&& exists|k: int| 0 <= k < args@.len() && mut_ref_to_self(#[trigger] args@[k])
    }

    /// Picks the projections that a method makes: `self.map_unchecked_mut(|place| &mut
    /// place.field)` is structural, `self.get_unchecked_mut().field` is not.
    pub open spec fn projection(self, nodes: Seq<Node>, method: Seq<char>) -> spec_fn(
        usize,
    ) -> Option<Projection> {
        |m: usize|
            match nodes[m as int].kind {
                NodeKind::MethodCall(call) => if !self.pin_call_on_self(nodes, call) {
                    None
                } else if text_is(call.name, "map_unchecked_mut"@) {
                    match closure_body(nodes, call) {
                        Some(body) => match borrowed_root(nodes, body as int) {
                            Some(field) => Some(
                                Projection {
                                    site: SiteView {
                                        field,
                                        method,
                                        range: nodes[m as int].range,
                                    },
                                    bucket: Bucket::StructuralSite,
                                },
                            ),
                            None => None,
                        },
                        None => None,
                    }
                } else if text_is(call.name, "get_unchecked_mut"@) {
                    match nodes[m as int].parent {
                        Some(p) => match nodes[p as int].kind {
                            NodeKind::Field(access) => match access.name {
                                Some(name) => Some(
                                    Projection {
                                        site: SiteView {
                                            field: name@,
                                            method,
                                            range: nodes[p as int].range,
                                        },
                                        bucket: Bucket::NonStructuralSite,
                                    },
                                ),
                                None => None,
                            },
                            _ => None,
                        },
                        None => None,
                    }
                } else {
                    None
                },
                _ => None,
            }
    }

    /// The projections of the code below a node.
    pub open spec fn body_projections(
        self,
        nodes: Seq<Node>,
        body: usize,
        method: Seq<char>,
    ) -> Seq<Projection> {
        subtree(nodes, body).filter_map(self.projection(nodes, method))
    }

    /// The projections of a member of an impl, if it takes `self: Pin<&mut Self>`.
    pub open spec fn member_projections(self, nodes: Seq<Node>, unnamed: Seq<char>) -> spec_fn(
        AssocItem,
    ) -> Seq<Projection> {
        |member: AssocItem|
            match member {
                AssocItem::FnItem(f) => match nodes[f as int].kind {
                    NodeKind::FnItem(function) => match function.body {
                        Some(body) => if self.takes_pin_mut_self(function) {
                            self.body_projections(nodes, body, name_or(function.name, unnamed))
                        } else {
                            Seq::empty()
                        },
                        None => Seq::empty(),
                    },
                    _ => Seq::empty(),
                },
                AssocItem::Other => Seq::empty(),
            }
    }

    /// The projections of the methods of an impl.
    pub open spec fn impl_projections(
        self,
        nodes: Seq<Node>,
        item: ImplItem,
        unnamed: Seq<char>,
    ) -> Seq<Projection> {
        match item.items {
            Some(items) => concat_map(items@, self.member_projections(nodes, unnamed)),
            None => Seq::empty(),
        }
    }
}

// ---------------------------------------------------------------------------
// Meaning: inconsistent projections
// ---------------------------------------------------------------------------

/// The message for a field that is projected in two ways.
pub open spec fn inconsistent_message(
    field: Seq<char>,
    non_structural_method: Seq<char>,
    structural_method: Seq<char>,
) -> Seq<char> {
    "field `"@ + field + "` is treated as non-structurally pinned here (in `"@
        + non_structural_method
        + "`), but as structurally pinned elsewhere (e.g. in `"@ + structural_method
        + "`). This inconsistency is unsound: one site relies on the pin guarantee while the other has broken it."@
}

/// The diagnostic for a non-structural site of a field that is structurally pinned elsewhere.
pub open spec fn inconsistency(file_id: u32, entry: EntryView) -> spec_fn(
    SiteView,
) -> DiagnosticView {
    |site: SiteView|
        plain_diagnostic(
            "pin-inconsistent-projection"@,
            Severity::Warning,
            inconsistent_message(entry.field, site.method, entry.structural[0].method),
            FileRange { file_id, range: site.range },
        )
}

/// The diagnostics for a field: its non-structural sites, if there is a structural one.
pub open spec fn inconsistencies(file_id: u32) -> spec_fn(EntryView) -> Seq<DiagnosticView> {
    |entry: EntryView|
        if entry.structural.len() > 0 {
            entry.non_structural.map_values(inconsistency(file_id, entry))
        } else {
            Seq::empty()
        }
}

impl Workspace {
    /// The diagnostics for the fields that the methods of an impl project in two ways.
    pub open spec fn inconsistent_in(self, file: int, item: ImplItem) -> Seq<DiagnosticView> {
        concat_map(
            by_field(self.impl_projections(self.tree(file), item, "<unnamed>"@)),
            inconsistencies(self.files@[file].file_id),
        )
    }

    /// The diagnostics for a node that is an inherent impl.
    pub open spec fn inconsistent_at(self, file: int) -> spec_fn(usize) -> Seq<DiagnosticView> {
        |m: usize|
            match self.tree(file)[m as int].kind {
                NodeKind::Impl(item) => if item.trait_type is None {
                    self.inconsistent_in(file, item)
                } else {
                    Seq::empty()
                },
                _ => Seq::empty(),
            }
    }

    /// The diagnostics for inconsistent projections in a file.
    pub open spec fn inconsistent_projections(self, file: int) -> Seq<DiagnosticView> {
        concat_map(indices(self.tree(file).len()), self.inconsistent_at(file))
    }
}

// ---------------------------------------------------------------------------
// Meaning: `Drop` and `Unpin` impls
// ---------------------------------------------------------------------------

/// Picks the fields that are structurally pinned somewhere.
pub open spec fn pinned_field() -> spec_fn(EntryView) -> Option<Seq<char>> {
    |entry: EntryView|
        if entry.structural.len() > 0 {
            Some(entry.field)
        } else {
            None
        }
}

/// Whether a crate belongs to the standard library.
pub open spec fn core_like(name: Option<String>) -> bool {
    core_or_std(name) || text_is(name, "alloc"@)
}

/// The message for a `Drop` impl that may move structurally pinned fields.
pub open spec fn drop_hint_message(fields: Seq<Seq<char>>) -> Seq<char> {
    "manual `Drop` impl on a type with structurally pinned field(s): `"@ + joined(fields, ", "@)
        + "`. The body of `drop` receives `&mut self` and must not move out of these fields, or the pin guarantee is broken. Verify, or migrate to `pin-project` which generates a sound `Drop` for you."@
}

/// The message for an `Unpin` impl that lacks bounds.
pub open spec fn missing_bounds_message(missing: Seq<Seq<char>>) -> Seq<char> {
    "`impl Unpin` on a type with structurally pinned field(s) missing the corresponding `Unpin` bound(s): `"@
        + joined(missing, ", "@)
        + "`. This is unsound: callers may move the outer type even though the projection assumes its pinned field stays pinned."@
}

/// Whether a written type is a bare generic parameter.
pub open spec fn generic_param(ty: TypeSyntax) -> bool {
    &&& ty.kind matches TypeKind::Path(Some(path))
    &&& !path.qualified
    &&& path.segment matches Some(segment)
    &&& segment.generic_args is None
    &&& path.resolution == Some(Resolution::TypeParam)
}

/// Picks the structurally pinned fields whose type is a generic parameter without a bound.
pub open spec fn missing_bound(structural: Seq<Seq<char>>, bounded: Seq<Seq<char>>) -> spec_fn(
    RecordField,
) -> Option<Seq<char>> {
    |field: RecordField|
        match (field.name, field.ty) {
            (Some(name), Some(ty)) => if structural.contains(name@) && generic_param(ty)
                && !bounded.contains(ty.text@) {
                Some(name@ + ": "@ + ty.text@)
            } else {
                None
            },
            _ => None,
        }
}

impl Workspace {
    /// The fields that an inherent impl of a type pins structurally.
    pub open spec fn pinned_at(self, nodes: Seq<Node>, adt: usize) -> spec_fn(usize) -> Seq<
        Seq<char>,
    > {
        |m: usize|
            match nodes[m as int].kind {
                NodeKind::Impl(item) => match item.self_type {
                    Some(ty) => if item.trait_type is None && named_adt(ty) == Some(adt) {
                        by_field(self.impl_projections(nodes, item, ""@)).filter_map(pinned_field())
                    } else {
                        Seq::empty()
                    },
                    None => Seq::empty(),
                },
                _ => Seq::empty(),
            }
    }

    /// The structurally pinned fields of a type: those that its inherent impls in a file pin.
    pub open spec fn structural_fields(self, nodes: Seq<Node>, adt: usize) -> Seq<Seq<char>> {
        distinct(concat_map(indices(nodes.len()), self.pinned_at(nodes, adt)))
    }

    /// The trait that an impl is checked for.
    pub open spec fn trait_kind(self, ty: TypeSyntax) -> Option<TraitKind> {
        match named_trait(ty) {
            Some(t) => if !core_like(self.traits@[t as int].crate_name) {
                None
            } else if self.traits@[t as int].name@ == "Drop"@ {
                Some(TraitKind::Drop)
            } else if self.traits@[t as int].name@ == "Unpin"@ {
                Some(TraitKind::Unpin)
            } else {
                None
            },
            None => None,
        }
    }

    /// Picks the diagnostic for a field that `drop` certainly moves.
    pub open spec fn certain_move(self, file_id: u32, nodes: Seq<Node>, item: ImplItem) -> spec_fn(
        Seq<char>,
    ) -> Option<DiagnosticView> {
        |field: Seq<char>|
            match self.drop_verdict(nodes, item, field) {
                DropVerdict::DefinitelyMoves { site, kind } => Some(
                    move_diagnostic(file_id, field, site, kind),
                ),
                _ => None,
            }
    }

    /// Whether `drop` may move one of the fields.
    pub open spec fn may_move(self, nodes: Seq<Node>, item: ImplItem, fields: Seq<Seq<char>>) -> bool {
        exists|i: int|
            0 <= i < fields.len() && self.drop_verdict(nodes, item, #[trigger] fields[i])
                == DropVerdict::PossiblyMoves
    }

    /// The diagnostics for a `Drop` impl of a type with structurally pinned fields: one for each
    /// field that is certainly moved; without any, a hint if a field may be moved.
    pub open spec fn drop_diagnostics(
        self,
        file_id: u32,
        nodes: Seq<Node>,
        m: int,
        fields: Seq<Seq<char>>,
    ) -> Seq<DiagnosticView> {
        let item = nodes[m].kind->Impl_0;
        let moves = fields.filter_map(self.certain_move(file_id, nodes, item));
        if moves.len() > 0 {
            moves
        } else if self.may_move(nodes, item, fields) {
            seq![
                plain_diagnostic(
                    "pin-drop-on-structural"@,
                    Severity::WeakWarning,
                    drop_hint_message(fields),
                    FileRange { file_id, range: impl_header(item, nodes[m].range) },
                ),
            ]
        } else {
            Seq::empty()
        }
    }

    /// The structurally pinned fields of generic type that an `Unpin` impl does not bound.
    pub open spec fn missing_bounds(self, item: ImplItem, adt: usize, fields: Seq<Seq<char>>) -> Seq<
        Seq<char>,
    > {
        let def = self.adts@[adt as int];
        match def.record_fields {
            Some(record_fields) => if def.kind == AdtKind::Struct {
                record_fields@.filter_map(missing_bound(fields, self.unpin_bounded_types(item)))
            } else {
                Seq::empty()
            },
            None => Seq::empty(),
        }
    }

    /// The diagnostic for an `Unpin` impl that lacks bounds.
    pub open spec fn unpin_diagnostics(
        self,
        file_id: u32,
        nodes: Seq<Node>,
        m: int,
        adt: usize,
        fields: Seq<Seq<char>>,
    ) -> Seq<DiagnosticView> {
        let item = nodes[m].kind->Impl_0;
        let missing = self.missing_bounds(item, adt, fields);
        if missing.len() > 0 {
            seq![
                plain_diagnostic(
                    "pin-unpin-without-bounds"@,
                    Severity::Warning,
                    missing_bounds_message(missing),
                    FileRange { file_id, range: impl_header(item, nodes[m].range) },
                ),
            ]
        } else {
            Seq::empty()
        }
    }

    /// The diagnostics for a node that is a `Drop` or `Unpin` impl.
    pub open spec fn trait_impl_at(self, file: int) -> spec_fn(usize) -> Seq<DiagnosticView> {
        |m: usize|
            {
                let nodes = self.tree(file);
                let file_id = self.files@[file].file_id;
                match nodes[m as int].kind {
                    NodeKind::Impl(item) => match (item.trait_type, item.self_type) {
                        (Some(trait_type), Some(self_type)) => match (
                            named_adt(self_type),
                            self.trait_kind(trait_type),
                        ) {
                            (Some(adt), Some(TraitKind::Drop)) => self.drop_diagnostics(
                                file_id,
                                nodes,
                                m as int,
                                self.structural_fields(nodes, adt),
                            ),
                            (Some(adt), Some(TraitKind::Unpin)) => self.unpin_diagnostics(
                                file_id,
                                nodes,
                                m as int,
                                adt,
                                self.structural_fields(nodes, adt),
                            ),
                            _ => Seq::empty(),
                        },
                        _ => Seq::empty(),
                    },
                    _ => Seq::empty(),
                }
            }
    }

    /// The diagnostics for the `Drop` and `Unpin` impls of a file.
    pub open spec fn broken_trait_impls(self, file: int) -> Seq<DiagnosticView> {
        concat_map(indices(self.tree(file).len()), self.trait_impl_at(file))
    }
}

// ---------------------------------------------------------------------------
// Recording sites
// ---------------------------------------------------------------------------

/// A field that nothing projects to has no sites.
proof fn lemma_no_sites(projections: Seq<Projection>, field: Seq<char>, bucket: Bucket)
    requires
        !projected_fields(projections).contains(field),
    ensures
        projections.filter_map(sites_of(field, bucket)) == Seq::<SiteView>::empty(),
    decreases projections.len(),
{
    if projections.len() > 0 {
        let front = projections.drop_last();
        let last = projections.len() - 1;
        assert(projected_fields(projections)[last] == projections[last].site.field);
        assert forall|k: int| 0 <= k < front.len() implies projected_fields(front)[k] != field by {
            assert(projected_fields(projections)[k] == projected_fields(front)[k]);
        }
        lemma_no_sites(front, field, bucket);
    }
}

/// Recording the sites one by one groups them by field.
pub proof fn lemma_recorded_by_field(projections: Seq<Projection>, projection: Projection)
    ensures
        by_field(projections.push(projection)) == recorded(by_field(projections), projection),
{
    let more = projections.push(projection);
    let field = projection.site.field;
    let fields = distinct(projected_fields(projections));
    let table = by_field(projections);
    assert(more.drop_last() =~= projections);
    assert(projected_fields(more) =~= projected_fields(projections).push(field));
    lemma_with_elements_push(Seq::empty(), projected_fields(projections), field);
    lemma_with_elements(Seq::empty(), projected_fields(projections));
    assert(entry_fields(table) =~= fields);
    assert forall|other: Seq<char>| #[trigger]
        entry_for(more)(other) == extending(projection)(entry_for(projections)(other)) by {
        let s = projections.filter_map(sites_of(other, Bucket::StructuralSite));
        let n = projections.filter_map(sites_of(other, Bucket::NonStructuralSite));
        assert(s + seq![projection.site] =~= s.push(projection.site));
        assert(n + seq![projection.site] =~= n.push(projection.site));
    }
    if fields.contains(field) {
        assert(by_field(more) =~= table.map_values(extending(projection)));
    } else {
        assert(!projected_fields(projections).contains(field));
        lemma_no_sites(projections, field, Bucket::StructuralSite);
        lemma_no_sites(projections, field, Bucket::NonStructuralSite);
        assert(entry_for(projections)(field) == empty_entry(field));
        assert forall|k: int| 0 <= k < fields.len() implies #[trigger] by_field(more)[k]
            == table[k] by {
            assert(fields.contains(fields[k]));
            assert(with_element(fields, field)[k] == fields[k]);
            assert(entry_for(more)(fields[k]) == extending(projection)(
                entry_for(projections)(fields[k]),
            ));
        }
        assert(by_field(more) =~= recorded(table, projection));
    }
}

/// Recording more sites groups them with those that were recorded before.
pub proof fn lemma_all_recorded(before: Seq<Projection>, projections: Seq<Projection>)
    ensures
        all_recorded(by_field(before), projections) == by_field(before + projections),
    decreases projections.len(),
{
    if projections.len() == 0 {
        assert(before + projections =~= before);
    } else {
        let front = projections.drop_last();
        lemma_all_recorded(before, front);
        lemma_recorded_by_field(before + front, projections.last());
        assert((before + front).push(projections.last()) =~= before + projections);
    }
}

/// Recording a site adds its field, once.
proof fn lemma_recorded_fields(table: Seq<EntryView>, projection: Projection)
    ensures
        entry_fields(recorded(table, projection)) == with_element(
            entry_fields(table),
            projection.site.field,
        ),
        entry_fields(table).no_duplicates() ==> entry_fields(
            recorded(table, projection),
        ).no_duplicates(),
{
    assert(entry_fields(recorded(table, projection)) =~= with_element(
        entry_fields(table),
        projection.site.field,
    ));
}

/// A table has one entry for each field that is projected to.
pub proof fn lemma_by_field_fields(projections: Seq<Projection>)
    ensures
        entry_fields(by_field(projections)) == distinct(projected_fields(projections)),
        entry_fields(by_field(projections)).no_duplicates(),
{
    lemma_with_elements(Seq::empty(), projected_fields(projections));
    assert(entry_fields(by_field(projections)) =~= distinct(projected_fields(projections)));
}

/// Records a site in the entry of its field, which is made if it is missing.
pub fn record(
    table: &mut Vec<FieldEntry>,
    field_name: String,
    method_name: &str,
    range: TextRange,
    bucket: Bucket,
)
    requires
        entry_fields(entry_views(old(table)@)).no_duplicates(),
    ensures
        entry_views(final(table)@) == recorded(
            entry_views(old(table)@),
            (Projection {
                site: SiteView { field: field_name@, method: method_name@, range },
                bucket,
            }),
        ),
{
    let ghost before = table@;
    let ghost projection = Projection {
        site: SiteView { field: field_name@, method: method_name@, range },
        bucket,
    };
    let site = ProjectionSite {
        field_name: field_name.clone(),
        method_name: method_name.to_owned(),
        range,
    };
    match find_entry(table, field_name.as_str()) {
        Some(i) => {
            match bucket {
                Bucket::StructuralSite => {
                    table[i].classification.structural_sites.push(site);
                },
                Bucket::NonStructuralSite => {
                    table[i].classification.non_structural_sites.push(site);
                },
            }
            proof {
                let old_views = entry_views(before);
                let new_views = entry_views(table@);
                assert(entry_fields(old_views)[i as int] == projection.site.field);
                assert(new_views[i as int].structural =~= extended(
                    old_views[i as int],
                    projection,
                ).structural);
                assert(new_views[i as int].non_structural =~= extended(
                    old_views[i as int],
                    projection,
                ).non_structural);
                assert forall|j: int| 0 <= j < old_views.len() implies #[trigger] new_views[j]
                    == extending(projection)(old_views[j]) by {
                    assert(entry_fields(old_views)[j] == old_views[j].field);
                    if j != i {
                        assert(table@[j] == before[j]);
                    }
                }
                assert(new_views =~= recorded(old_views, projection));
            }
        },
        None => {
            let mut classification = FieldClassification {
                structural_sites: Vec::new(),
                non_structural_sites: Vec::new(),
            };
            match bucket {
                Bucket::StructuralSite => {
                    classification.structural_sites.push(site);
                },
                Bucket::NonStructuralSite => {
                    classification.non_structural_sites.push(site);
                },
            }
            let entry = FieldEntry { field_name, classification };
            proof {
                let fresh = extended(empty_entry(projection.site.field), projection);
                assert(entry@.structural =~= fresh.structural);
                assert(entry@.non_structural =~= fresh.non_structural);
            }
            table.push(entry);
            assert(entry_views(table@) =~= recorded(entry_views(before), projection));
        },
    }
}

/// Finds the entry of a field.
fn find_entry(table: &Vec<FieldEntry>, field: &str) -> (found: Option<usize>)
    ensures
        match found {
            Some(i) => i < table@.len() && table@[i as int].field_name@ == field@,
            None => !entry_fields(entry_views(table@)).contains(field@),
        },
{
    let mut i: usize = 0;
    while i < table.len()
        invariant
            i <= table@.len(),
            forall|j: int| 0 <= j < i ==> table@[j].field_name@ != field@,
        decreases table.len() - i,
    {
        if same_text(table[i].field_name.as_str(), field) {
            return Some(i);
        }
        i += 1;
    }
    assert forall|j: int| 0 <= j < table@.len() implies entry_fields(entry_views(table@))[j]
        != field@ by {
        assert(table@[j].field_name@ != field@);
    }
    None
}

// ---------------------------------------------------------------------------
// Projections
// ---------------------------------------------------------------------------

/// Whether a generic argument is `&mut Self`.
fn is_mut_ref_to_self(arg: &GenericArg) -> (answer: bool)
    ensures
        answer == mut_ref_to_self(*arg),
{
    match arg {
        GenericArg::Type(Some(ty)) => match &ty.kind {
            TypeKind::Ref { mutable, inner } => match inner {
                Some(inner) => match &inner.kind {
                    TypeKind::Path(Some(path)) => *mutable && does_path_end_in(path, "Self"),
                    _ => false,
                },
                None => false,
            },
            _ => false,
        },
        _ => false,
    }
}

/// The field that node `e` borrows from, for an expression `&mut place.field...`: the first of
/// the chain.
pub fn field_name_from_ref_field_chain(nodes: &Vec<Node>, e: usize) -> (field: Option<String>)
    requires
        e < nodes@.len(),
        forall|i: int|
            0 <= i < nodes@.len() ==> (#[trigger] nodes@[i].kind matches NodeKind::Field(access)
                ==> (access.expr matches Some(inner) ==> i < inner < nodes@.len())),
        nodes@[e as int].kind matches NodeKind::RefExpr { mutable, expr } ==> (
        expr matches Some(inner) ==> inner < nodes@.len()),
    ensures
        (match field {
            Some(field) => Some(field@),
            None => None,
        }) == borrowed_root(nodes@, e as int),
{
    let mut current: usize = match &nodes[e].kind {
        NodeKind::RefExpr { mutable, expr } => {
            if !*mutable {
                return None;
            }
            match *expr {
                Some(inner) => inner,
                None => {
                    return None;
                },
            }
        },
        _ => {
            return None;
        },
    };
    loop
        invariant
            current < nodes@.len(),
            forall|i: int|
                0 <= i < nodes@.len() ==> (#[trigger] nodes@[i].kind matches NodeKind::Field(access)
                    ==> (access.expr matches Some(inner) ==> i < inner < nodes@.len())),
            borrowed_root(nodes@, e as int) == chain_root(nodes@, current as int),
        decreases nodes@.len() - current,
    {
        match &nodes[current].kind {
            NodeKind::Field(access) => match access.expr {
                Some(inner) => match &nodes[inner].kind {
                    NodeKind::Field(_) => {
                        current = inner;
                    },
                    _ => {
                        return match &access.name {
                            Some(name) => Some(name.clone()),
                            None => None,
                        };
                    },
                },
                None => {
                    return None;
                },
            },
            _ => {
                return None;
            },
        }
    }
}

impl Workspace {
    /// Whether a function takes `self: Pin<&mut Self>`.
    pub fn receiver_is_pin_mut_self(&self, function: &FnItem) -> (answer: bool)
        requires
            self.type_ok(function.self_param_type),
        ensures
            answer == self.takes_pin_mut_self(*function),
    {
        let path = match &function.self_param_type {
            Some(ty) => match &ty.kind {
                TypeKind::Path(Some(path)) => path,
                _ => {
                    return false;
                },
            },
            None => {
                return false;
            },
        };
        match path.resolution {
            Some(Resolution::Adt(adt)) => {
                if !self.is_pin_struct(adt) {
                    return false;
                }
            },
            _ => {
                return false;
            },
        }
        let segment = match &path.segment {
            Some(segment) => segment,
            None => {
                return false;
            },
        };
        let args = match &segment.generic_args {
            Some(args) => args,
            None => {
                return false;
            },
        };
        let mut k: usize = 0;
        while k < args.len()
            invariant
                k <= args@.len(),
                forall|j: int| 0 <= j < k ==> !mut_ref_to_self(#[trigger] args@[j]),
                self.takes_pin_mut_self(*function) == exists|j: int|
                    0 <= j < args@.len() && mut_ref_to_self(#[trigger] args@[j]),
            decreases args.len() - k,
        {
            if is_mut_ref_to_self(&args[k]) {
                assert(mut_ref_to_self(args@[k as int]));
                return true;
            }
            k += 1;
        }
        false
    }

    /// Records the projections that the code below node `body` makes.
    pub fn classify_projections_in_body(
        &self,
        file: usize,
        body: usize,
        method_name: &str,
        table: &mut Vec<FieldEntry>,
    )
        requires
            self.wf(),
            file < self.files@.len(),
            body < self.tree(file as int).len(),
            entry_fields(entry_views(old(table)@)).no_duplicates(),
        ensures
            entry_views(final(table)@) == all_recorded(
                entry_views(old(table)@),
                self.body_projections(self.tree(file as int), body, method_name@),
            ),
            entry_fields(entry_views(final(table)@)).no_duplicates(),
    {
        let nodes = &self.files[file].nodes;
        let ghost pick = self.projection(nodes@, method_name@);
        let ghost start = entry_views(table@);
        proof {
            lemma_parents_ok(*self, file as int);
        }
        let list: Vec<usize> = descendants(nodes, body);
        let mut k: usize = 0;
        while k < list.len()
            invariant
                self.wf(),
                file < self.files@.len(),
                nodes@ == self.tree(file as int),
                forall|j: int| 0 <= j < list@.len() ==> #[trigger] list@[j] < nodes@.len(),
                k <= list@.len(),
                pick == self.projection(nodes@, method_name@),
                entry_views(table@) == all_recorded(start, list@.take(k as int).filter_map(pick)),
                entry_fields(entry_views(table@)).no_duplicates(),
            decreases list.len() - k,
        {
            let m: usize = list[k];
            let ghost before = list@.take(k as int).filter_map(pick);
            let ghost table_before = entry_views(table@);
            proof {
                list@.lemma_filter_map_take_succ(pick, k as int);
            }
            if let Some((field, range, bucket)) = self.classify_projection(file, m) {
                let ghost projection = Projection {
                    site: SiteView { field: field@, method: method_name@, range },
                    bucket,
                };
                assert(pick(m) == Some(projection));
                proof {
                    let after = before + seq![projection];
                    assert(after.drop_last() =~= before);
                    lemma_recorded_fields(table_before, projection);
                }
                record(table, field, method_name, range, bucket);
            }
            k += 1;
        }
        assert(list@.take(k as int) =~= list@);
    }

    /// The projection that node `m` makes: to which field, where, and in which way.
    fn classify_projection(&self, file: usize, m: usize) -> (found: Option<
        (String, TextRange, Bucket),
    >)
        requires
            self.wf(),
            file < self.files@.len(),
            m < self.tree(file as int).len(),
        ensures
            forall|method: Seq<char>| #[trigger]
                self.projection(self.tree(file as int), method)(m) == (match found {
                    Some((field, range, bucket)) => Some(
                        Projection { site: SiteView { field: field@, method, range }, bucket },
                    ),
                    None => None,
                }),
    {
        let nodes = &self.files[file].nodes;
        proof {
            lemma_parents_ok(*self, file as int);
            assert(self.tree_ok(self.tree(file as int)));
            assert(self.node_ok(nodes@, m as int));
            assert(parent_ok(nodes@, m as int));
            assert forall|i: int| 0 <= i < nodes@.len() implies (#[trigger] nodes@[i].kind matches
                NodeKind::Field(access) ==> (access.expr matches Some(inner) ==> i < inner
                < nodes@.len())) by {
                assert(self.node_ok(nodes@, i));
            }
        }
        let call = match &nodes[m].kind {
            NodeKind::MethodCall(call) => call,
            _ => {
                return None;
            },
        };
        let is_map: bool = is_text(&call.name, "map_unchecked_mut");
        let is_get: bool = is_text(&call.name, "get_unchecked_mut");
        if !is_map && !is_get {
            return None;
        }
        if !self.is_pin_call_on_self(nodes, call) {
            return None;
        }
        if is_map {
            assert(call.args matches Some(args) ==> args@.len() > 0 ==> args@[0] < nodes@.len());
            match closure_argument_body(nodes, call) {
                Some(body) => {
                    proof {
                        let a = call.args->0@[0];
                        assert(self.node_ok(nodes@, a as int));
                        assert(self.node_ok(nodes@, body as int));
                    }
                    match field_name_from_ref_field_chain(nodes, body) {
                        Some(field) => Some((field, nodes[m].range, Bucket::StructuralSite)),
                        None => None,
                    }
                },
                None => None,
            }
        } else {
            match nodes[m].parent {
                Some(p) => match &nodes[p].kind {
                    NodeKind::Field(access) => match &access.name {
                        Some(name) => Some(
                            (name.clone(), nodes[p].range, Bucket::NonStructuralSite),
                        ),
                        None => None,
                    },
                    _ => None,
                },
                None => None,
            }
        }
    }

    /// Groups the projections of the methods of an impl by field.
    pub fn classify_impl(&self, file: usize, item: &ImplItem, unnamed: &str) -> (table: Vec<
        FieldEntry,
    >)
        requires
            self.wf(),
            file < self.files@.len(),
            self.impl_ok(*item, self.tree(file as int)),
        ensures
            entry_views(table@) == by_field(
                self.impl_projections(self.tree(file as int), *item, unnamed@),
            ),
    {
        let nodes = &self.files[file].nodes;
        let mut table: Vec<FieldEntry> = Vec::new();
        assert(entry_views(table@) =~= by_field(Seq::empty()));
        let items = match &item.items {
            Some(items) => items,
            None => {
                return table;
            },
        };
        let ghost part = self.member_projections(nodes@, unnamed@);
        assert forall|j: int| 0 <= j < items@.len() implies (#[trigger] items@[j] matches
            AssocItem::FnItem(f) ==> f < nodes@.len() && nodes@[f as int].kind is FnItem) by {
            assert(item.items->0@[j] == items@[j]);
        }
        let mut k: usize = 0;
        while k < items.len()
            invariant
                self.wf(),
                file < self.files@.len(),
                nodes@ == self.tree(file as int),
                part == self.member_projections(nodes@, unnamed@),
                k <= items@.len(),
                forall|j: int|
                    0 <= j < items@.len() ==> (#[trigger] items@[j] matches AssocItem::FnItem(f)
                        ==> f < nodes@.len() && nodes@[f as int].kind is FnItem),
                entry_views(table@) == by_field(concat_map(items@.take(k as int), part)),
            decreases items.len() - k,
        {
            let ghost before = concat_map(items@.take(k as int), part);
            proof {
                lemma_concat_map_step(items@, part, k as int);
                assert(self.tree_ok(self.tree(file as int)));
            }
            let ghost mut added = Seq::<Projection>::empty();
            if let AssocItem::FnItem(f) = items[k] {
                assert(items@[k as int] == AssocItem::FnItem(f));
                assert(self.node_ok(nodes@, f as int));
                if let NodeKind::FnItem(function) = &nodes[f].kind {
                    if self.receiver_is_pin_mut_self(function) {
                        let method_name: &str = match &function.name {
                            Some(name) => name.as_str(),
                            None => unnamed,
                        };
                        if let Some(body) = function.body {
                            proof {
                                added = self.body_projections(nodes@, body, method_name@);
                                lemma_all_recorded(before, added);
                                lemma_by_field_fields(before);
                            }
                            self.classify_projections_in_body(
                                file,
                                body,
                                method_name,
                                &mut table,
                            );
                        }
                    }
                }
            }
            proof {
                assert(part(items@[k as int]) =~= added);
                assert(before + Seq::empty() =~= before);
            }
            k += 1;
        }
        assert(items@.take(k as int) =~= items@);
        table
    }
}

// ---------------------------------------------------------------------------
// Checks
// ---------------------------------------------------------------------------

/// Reports the non-structural sites of a field that is structurally pinned elsewhere.
fn report_inconsistencies(file_id: u32, entry: &FieldEntry, out: &mut Vec<Diagnostic>)
    ensures
        views(final(out)@) == views(old(out)@) + inconsistencies(file_id)(entry@),
{
    let structural = &entry.classification.structural_sites;
    let non_structural = &entry.classification.non_structural_sites;
    let ghost start = views(out@);
    if structural.len() == 0 {
        assert(start =~= start + Seq::empty());
        return;
    }
    let ghost make = inconsistency(file_id, entry@);
    let ghost expected = entry@.non_structural.map_values(make);
    assert(start =~= start + expected.take(0));
    let mut k: usize = 0;
    while k < non_structural.len()
        invariant
            k <= non_structural@.len(),
            non_structural@ == entry.classification.non_structural_sites@,
            structural@ == entry.classification.structural_sites@,
            structural@.len() > 0,
            make == inconsistency(file_id, entry@),
            expected == entry@.non_structural.map_values(make),
            views(out@) == start + expected.take(k as int),
        decreases non_structural.len() - k,
    {
        let site = &non_structural[k];
        let message: String = "field `".to_owned().concat(entry.field_name.as_str()).concat(
            "` is treated as non-structurally pinned here (in `",
        ).concat(site.method_name.as_str()).concat(
            "`), but as structurally pinned elsewhere (e.g. in `",
        ).concat(structural[0].method_name.as_str()).concat(
            "`). This inconsistency is unsound: one site relies on the pin guarantee while the other has broken it.",
        );
        let diagnostic = Diagnostic::new(
            "pin-inconsistent-projection",
            Severity::Warning,
            message,
            FileRange { file_id, range: site.range },
        );
        proof {
            assert(entry@.non_structural[k as int] == site@);
            assert(entry@.structural[0] == structural@[0]@);
            assert(diagnostic@ == expected[k as int]);
            assert(start + expected.take(k + 1) =~= (start + expected.take(k as int)).push(
                expected[k as int],
            ));
        }
        emit(out, diagnostic);
        k += 1;
    }
    assert(expected.take(k as int) =~= expected);
}

impl Workspace {
    /// Finds the fields of a file that are projected in two ways, and the `Drop` and `Unpin`
    /// impls that break a projection.
    pub fn pin_consistency(&self, file: usize) -> (diagnostics: Vec<Diagnostic>)
        requires
            self.wf(),
            file < self.files@.len(),
        ensures
            views(diagnostics@) == self.inconsistent_projections(file as int)
                + self.broken_trait_impls(file as int),
    {
        let nodes = &self.files[file].nodes;
        let ghost all = indices(nodes@.len());
        let ghost part = self.inconsistent_at(file as int);
        let mut diagnostics: Vec<Diagnostic> = Vec::new();
        assert(views(diagnostics@) =~= concat_map(all.take(0), part));
        let mut m: usize = 0;
        while m < nodes.len()
            invariant
                self.wf(),
                file < self.files@.len(),
                nodes@ == self.tree(file as int),
                all == indices(nodes@.len()),
                part == self.inconsistent_at(file as int),
                m <= nodes@.len(),
                views(diagnostics@) == concat_map(all.take(m as int), part),
            decreases nodes.len() - m,
        {
            let ghost before = views(diagnostics@);
            proof {
                lemma_concat_map_step(all, part, m as int);
                assert(all[m as int] == m);
                assert(self.tree_ok(self.tree(file as int)));
                assert(self.node_ok(nodes@, m as int));
                assert(before + Seq::empty() =~= before);
            }
            if let NodeKind::Impl(item) = &nodes[m].kind {
                if item.trait_type.is_none() {
                    self.analyze_inherent_impl(file, item, &mut diagnostics);
                }
            }
            m += 1;
        }
        assert(all.take(m as int) =~= all);
        self.analyze_drop_and_unpin(file, &mut diagnostics);
        diagnostics
    }

    /// Reports the fields that the methods of an inherent impl project in two ways.
    pub fn analyze_inherent_impl(&self, file: usize, item: &ImplItem, out: &mut Vec<Diagnostic>)
        requires
            self.wf(),
            file < self.files@.len(),
            self.impl_ok(*item, self.tree(file as int)),
        ensures
            views(final(out)@) == views(old(out)@) + self.inconsistent_in(file as int, *item),
    {
        let file_id: u32 = self.files[file].file_id;
        let table: Vec<FieldEntry> = self.classify_impl(file, item, "<unnamed>");
        let ghost entries = entry_views(table@);
        let ghost part = inconsistencies(file_id);
        let ghost start = views(out@);
        assert(start =~= start + concat_map(entries.take(0), part));
        let mut k: usize = 0;
        while k < table.len()
            invariant
                k <= table@.len(),
                entries == entry_views(table@),
                part == inconsistencies(file_id),
                views(out@) == start + concat_map(entries.take(k as int), part),
            decreases table.len() - k,
        {
            report_inconsistencies(file_id, &table[k], out);
            proof {
                lemma_concat_map_step(entries, part, k as int);
                assert(views(out@) =~= start + concat_map(entries.take(k + 1), part));
            }
            k += 1;
        }
        assert(entries.take(k as int) =~= entries);
    }

    /// Adds the fields that an impl pins structurally.
    fn collect_pinned_fields(&self, file: usize, item: &ImplItem, fields: &mut Vec<String>)
        requires
            self.wf(),
            file < self.files@.len(),
            self.impl_ok(*item, self.tree(file as int)),
        ensures
            texts(final(fields)@) == with_elements(
                texts(old(fields)@),
                by_field(self.impl_projections(self.tree(file as int), *item, ""@)).filter_map(
                    pinned_field(),
                ),
            ),
    {
        let table: Vec<FieldEntry> = self.classify_impl(file, item, "");
        let ghost entries = entry_views(table@);
        let ghost pick = pinned_field();
        let ghost start = texts(fields@);
        let mut k: usize = 0;
        while k < table.len()
            invariant
                k <= table@.len(),
                entries == entry_views(table@),
                pick == pinned_field(),
                texts(fields@) == with_elements(start, entries.take(k as int).filter_map(pick)),
            decreases table.len() - k,
        {
            let ghost before = entries.take(k as int).filter_map(pick);
            proof {
                entries.lemma_filter_map_take_succ(pick, k as int);
                assert(entries[k as int] == table@[k as int]@);
            }
            let entry = &table[k];
            if entry.classification.structural_sites.len() > 0 {
                insert_string(fields, entry.field_name.as_str());
                proof {
                    lemma_with_elements_push(start, before, entry.field_name@);
                    assert(before.push(entry.field_name@) =~= before + seq![entry.field_name@]);
                }
            }
            k += 1;
        }
        assert(entries.take(k as int) =~= entries);
    }

    /// The structurally pinned fields of every type, by the position of the type in the table
    /// of types.
    pub fn structural_fields_by_adt(&self, file: usize) -> (fields: Vec<Vec<String>>)
        requires
            self.wf(),
            file < self.files@.len(),
        ensures
            fields@.len() == self.adts@.len(),
            forall|a: usize|
                a < fields@.len() ==> texts((#[trigger] fields@[a as int])@)
                    == self.structural_fields(self.tree(file as int), a),
    {
        let nodes = &self.files[file].nodes;
        let ghost all = indices(nodes@.len());
        let ghost empty = Seq::<Seq<char>>::empty();
        let mut fields: Vec<Vec<String>> = Vec::new();
        let count: usize = self.adts.len();
        let mut a: usize = 0;
        while a < count
            invariant
                a <= count,
                count == self.adts@.len(),
                fields@.len() == a,
                forall|b: usize|
                    b < a ==> (#[trigger] fields@[b as int])@ == Seq::<String>::empty(),
            decreases count - a,
        {
            fields.push(Vec::new());
            a += 1;
        }
        proof {
            assert forall|b: usize| b < count implies texts((#[trigger] fields@[b as int])@)
                == with_elements(empty, concat_map(all.take(0), self.pinned_at(nodes@, b))) by {
                assert(texts(fields@[b as int]@) =~= empty);
            }
        }
        let mut m: usize = 0;
        while m < nodes.len()
            invariant
                self.wf(),
                file < self.files@.len(),
                nodes@ == self.tree(file as int),
                all == indices(nodes@.len()),
                empty == Seq::<Seq<char>>::empty(),
                count == self.adts@.len(),
                fields@.len() == count,
                m <= nodes@.len(),
                forall|b: usize|
                    b < count ==> texts((#[trigger] fields@[b as int])@) == with_elements(
                        empty,
                        concat_map(all.take(m as int), self.pinned_at(nodes@, b)),
                    ),
            decreases nodes.len() - m,
        {
            let ghost before = fields@;
            let ghost mut touched: Option<usize> = None;
            proof {
                assert(self.tree_ok(self.tree(file as int)));
                assert(self.node_ok(nodes@, m as int));
                assert(all[m as int] == m);
            }
            if let NodeKind::Impl(item) = &nodes[m].kind {
                if item.trait_type.is_none() {
                    if let Some(ty) = &item.self_type {
                        if let Some(adt) = resolve_self_ty_to_adt(ty) {
                            proof {
                                touched = Some(adt);
                            }
                            self.collect_pinned_fields(file, item, &mut fields[adt]);
                        }
                    }
                }
            }
            proof {
                assert forall|b: usize| b < count implies texts((#[trigger] fields@[b as int])@)
                    == with_elements(
                    empty,
                    concat_map(all.take(m + 1), self.pinned_at(nodes@, b)),
                ) by {
                    let part = self.pinned_at(nodes@, b);
                    lemma_concat_map_step(all, part, m as int);
                    lemma_with_elements_add(empty, concat_map(all.take(m as int), part), part(m));
                    assert(texts(before[b as int]@) == with_elements(
                        empty,
                        concat_map(all.take(m as int), part),
                    ));
                    if touched != Some(b) {
                        assert(fields@[b as int] == before[b as int]);
                        assert(part(m) =~= Seq::empty());
                    }
                }
            }
            m += 1;
        }
        assert(all.take(m as int) =~= all);
        fields
    }

    /// Reports the `Drop` and `Unpin` impls that break a projection.
    pub fn analyze_drop_and_unpin(&self, file: usize, out: &mut Vec<Diagnostic>)
        requires
            self.wf(),
            file < self.files@.len(),
        ensures
            views(final(out)@) == views(old(out)@) + self.broken_trait_impls(file as int),
    {
        let nodes = &self.files[file].nodes;
        let fields: Vec<Vec<String>> = self.structural_fields_by_adt(file);
        let ghost all = indices(nodes@.len());
        let ghost part = self.trait_impl_at(file as int);
        let ghost start = views(out@);
        assert(start =~= start + concat_map(all.take(0), part));
        let mut m: usize = 0;
        while m < nodes.len()
            invariant
                self.wf(),
                file < self.files@.len(),
                nodes@ == self.tree(file as int),
                all == indices(nodes@.len()),
                part == self.trait_impl_at(file as int),
                fields@.len() == self.adts@.len(),
                forall|a: usize|
                    a < fields@.len() ==> texts((#[trigger] fields@[a as int])@)
                        == self.structural_fields(nodes@, a),
                m <= nodes@.len(),
                views(out@) == start + concat_map(all.take(m as int), part),
            decreases nodes.len() - m,
        {
            let ghost before = views(out@);
            proof {
                lemma_concat_map_step(all, part, m as int);
                assert(all[m as int] == m);
                assert(self.tree_ok(self.tree(file as int)));
                assert(self.node_ok(nodes@, m as int));
                assert(before + Seq::empty() =~= before);
            }
            if let NodeKind::Impl(item) = &nodes[m].kind {
                if let Some(trait_type) = &item.trait_type {
                    if let Some(self_type) = &item.self_type {
                        if let Some(adt) = resolve_self_ty_to_adt(self_type) {
                            let structural: &Vec<String> = &fields[adt];
                            assert(texts(fields@[adt as int]@) == self.structural_fields(
                                nodes@,
                                adt,
                            ));
                            match self.resolve_trait_path(trait_type) {
                                Some(TraitKind::Drop) => {
                                    self.check_drop_impl(file, m, structural, out);
                                },
                                Some(TraitKind::Unpin) => {
                                    self.check_unpin_impl(file, m, adt, structural, out);
                                },
                                None => {},
                            }
                        }
                    }
                }
            }
            proof {
                assert(views(out@) =~= before + part(m));
                assert(views(out@) =~= start + concat_map(all.take(m + 1), part));
            }
            m += 1;
        }
        assert(all.take(m as int) =~= all);
    }

    /// Reports what a `Drop` impl does to structurally pinned fields.
    fn check_drop_impl(
        &self,
        file: usize,
        m: usize,
        structural_fields: &Vec<String>,
        out: &mut Vec<Diagnostic>,
    )
        requires
            self.wf(),
            file < self.files@.len(),
            m < self.tree(file as int).len(),
            self.tree(file as int)[m as int].kind is Impl,
        ensures
            views(final(out)@) == views(old(out)@) + self.drop_diagnostics(
                self.files@[file as int].file_id,
                self.tree(file as int),
                m as int,
                texts(structural_fields@),
            ),
    {
        let nodes = &self.files[file].nodes;
        let file_id: u32 = self.files[file].file_id;
        let ghost item = nodes@[m as int].kind->Impl_0;
        let ghost fields = texts(structural_fields@);
        let ghost pick = self.certain_move(file_id, nodes@, item);
        let ghost start = views(out@);
        let verdicts: Vec<(String, DropVerdict)> = self.analyze_drop_body(
            file,
            m,
            structural_fields,
        );
        let mut emitted_strong: bool = false;
        let mut any_possibly: bool = false;
        let mut k: usize = 0;
        assert(start =~= start + fields.take(0).filter_map(pick));
        while k < verdicts.len()
            invariant
                k <= verdicts@.len(),
                nodes@ == self.tree(file as int),
                verdicts@.len() == fields.len(),
                fields == texts(structural_fields@),
                forall|i: int|
                    0 <= i < verdicts@.len() ==> (#[trigger] verdicts@[i]).0@ == fields[i]
                        && verdicts@[i].1 == self.drop_verdict(nodes@, item, fields[i]),
                pick == self.certain_move(file_id, nodes@, item),
                views(out@) == start + fields.take(k as int).filter_map(pick),
                emitted_strong == (fields.take(k as int).filter_map(pick).len() > 0),
                any_possibly == exists|i: int|
                    0 <= i < k && self.drop_verdict(nodes@, item, #[trigger] fields[i])
                        == DropVerdict::PossiblyMoves,
            decreases verdicts.len() - k,
        {
            let ghost was_possibly = any_possibly;
            proof {
                fields.lemma_filter_map_take_succ(pick, k as int);
                assert(verdicts@[k as int].0@ == fields[k as int]);
            }
            match verdicts[k].1 {
                DropVerdict::DefinitelyMoves { site, kind } => {
                    let diagnostic = build_move_diagnostic(
                        file_id,
                        verdicts[k].0.as_str(),
                        site,
                        kind,
                    );
                    let ghost before = fields.take(k as int).filter_map(pick);
                    emit(out, diagnostic);
                    emitted_strong = true;
                    assert(views(out@) =~= start + (before + seq![diagnostic@]));
                },
                DropVerdict::PossiblyMoves => {
                    any_possibly = true;
                    assert(fields.take(k + 1).filter_map(pick) =~= fields.take(
                        k as int,
                    ).filter_map(pick));
                },
                DropVerdict::NoMove => {
                    assert(fields.take(k + 1).filter_map(pick) =~= fields.take(
                        k as int,
                    ).filter_map(pick));
                },
            }
            assert(any_possibly == (was_possibly || self.drop_verdict(
                nodes@,
                item,
                fields[k as int],
            ) == DropVerdict::PossiblyMoves));
            k += 1;
        }
        assert(fields.take(k as int) =~= fields);
        if any_possibly && !emitted_strong {
            if let NodeKind::Impl(item) = &nodes[m].kind {
                let fields_list: String = join(structural_fields, ", ");
                let message: String =
                    "manual `Drop` impl on a type with structurally pinned field(s): `".to_owned().concat(
                    fields_list.as_str(),
                ).concat(
                    "`. The body of `drop` receives `&mut self` and must not move out of these fields, or the pin guarantee is broken. Verify, or migrate to `pin-project` which generates a sound `Drop` for you.",
                );
                emit(
                    out,
                    Diagnostic::new(
                        "pin-drop-on-structural",
                        Severity::WeakWarning,
                        message,
                        FileRange { file_id, range: header_range(item, nodes[m].range) },
                    ),
                );
            }
        }
        assert(views(out@) =~= start + self.drop_diagnostics(file_id, nodes@, m as int, fields));
    }

    /// Reports an `Unpin` impl that does not bound the structurally pinned fields.
    fn check_unpin_impl(
        &self,
        file: usize,
        m: usize,
        adt: usize,
        structural_fields: &Vec<String>,
        out: &mut Vec<Diagnostic>,
    )
        requires
            self.wf(),
            file < self.files@.len(),
            m < self.tree(file as int).len(),
            self.tree(file as int)[m as int].kind is Impl,
            adt < self.adts@.len(),
        ensures
            views(final(out)@) == views(old(out)@) + self.unpin_diagnostics(
                self.files@[file as int].file_id,
                self.tree(file as int),
                m as int,
                adt,
                texts(structural_fields@),
            ),
    {
        let nodes = &self.files[file].nodes;
        let file_id: u32 = self.files[file].file_id;
        let ghost start = views(out@);
        proof {
            assert(self.tree_ok(self.tree(file as int)));
            assert(self.node_ok(nodes@, m as int));
            assert(start =~= start + Seq::empty());
        }
        if let NodeKind::Impl(item) = &nodes[m].kind {
            let missing: Vec<String> = self.unpin_impl_missing_bounds(item, adt, structural_fields);
            if missing.len() > 0 {
                let fields_list: String = join(&missing, ", ");
                let message: String =
                    "`impl Unpin` on a type with structurally pinned field(s) missing the corresponding `Unpin` bound(s): `".to_owned().concat(
                    fields_list.as_str(),
                ).concat(
                    "`. This is unsound: callers may move the outer type even though the projection assumes its pinned field stays pinned.",
                );
                emit(
                    out,
                    Diagnostic::new(
                        "pin-unpin-without-bounds",
                        Severity::Warning,
                        message,
                        FileRange { file_id, range: header_range(item, nodes[m].range) },
                    ),
                );
            }
        }
        assert(views(out@) =~= start + self.unpin_diagnostics(
            file_id,
            nodes@,
            m as int,
            adt,
            texts(structural_fields@),
        ));
    }

    /// Whether an impl is one of `Drop` or `Unpin`.
    pub fn resolve_trait_path(&self, ty: &TypeSyntax) -> (kind: Option<TraitKind>)
        requires
            self.type_ok(Some(*ty)),
        ensures
            kind == self.trait_kind(*ty),
    {
        match resolve_trait(ty) {
            Some(t) => {
                let def = &self.traits[t];
                if !is_core_or_std(&def.crate_name) && !is_text(&def.crate_name, "alloc") {
                    None
                } else if same_text(def.name.as_str(), "Drop") {
                    Some(TraitKind::Drop)
                } else if same_text(def.name.as_str(), "Unpin") {
                    Some(TraitKind::Unpin)
                } else {
                    None
                }
            },
            None => None,
        }
    }

    /// Lists the structurally pinned fields of generic type that an `Unpin` impl does not bound.
    pub fn unpin_impl_missing_bounds(
        &self,
        item: &ImplItem,
        adt: usize,
        structural_fields: &Vec<String>,
    ) -> (missing: Vec<String>)
        requires
            adt < self.adts@.len(),
            self.impl_bounds_ok(*item),
        ensures
            texts(missing@) == self.missing_bounds(*item, adt, texts(structural_fields@)),
    {
        let bounded: Vec<String> = self.collect_unpin_bounds(item);
        let mut missing: Vec<String> = Vec::new();
        let ghost structural = texts(structural_fields@);
        let ghost pick = missing_bound(structural, self.unpin_bounded_types(*item));
        assert(texts(missing@) =~= Seq::<Seq<char>>::empty());
        let def = &self.adts[adt];
        if def.kind != AdtKind::Struct {
            return missing;
        }
        let fields = match &def.record_fields {
            Some(fields) => fields,
            None => {
                return missing;
            },
        };
        let mut k: usize = 0;
        while k < fields.len()
            invariant
                k <= fields@.len(),
                structural == texts(structural_fields@),
                texts(bounded@) == self.unpin_bounded_types(*item),
                pick == missing_bound(structural, self.unpin_bounded_types(*item)),
                texts(missing@) == fields@.take(k as int).filter_map(pick),
            decreases fields.len() - k,
        {
            let ghost before = missing@;
            let field = &fields[k];
            proof {
                fields@.lemma_filter_map_take_succ(pick, k as int);
            }
            match (&field.name, &field.ty) {
                (Some(name), Some(ty)) => {
                    if contains_string(structural_fields, name.as_str()) && is_simple_generic_param(
                        ty,
                    ) && !contains_string(&bounded, ty.text.as_str()) {
                        let words: String = name.clone().concat(": ").concat(ty.text.as_str());
                        missing.push(words);
                        assert(texts(missing@) =~= texts(before) + seq![name@ + ": "@ + ty.text@]);
                    }
                },
                _ => {},
            }
            k += 1;
        }
        assert(fields@.take(k as int) =~= fields@);
        missing
    }
}

/// Whether a written type is a bare generic parameter.
pub fn is_simple_generic_param(ty: &TypeSyntax) -> (answer: bool)
    ensures
        answer == generic_param(*ty),
{
    match &ty.kind {
        TypeKind::Path(Some(path)) => !path.qualified && (match &path.segment {
            Some(segment) => segment.generic_args.is_none(),
            None => false,
        }) && (match path.resolution {
            Some(Resolution::TypeParam) => true,
            _ => false,
        }),
        _ => false,
    }
}

} // verus!
