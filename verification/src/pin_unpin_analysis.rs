//! Unsound `Unpin` impls, wherever the type is defined, and calls of `Pin::new_unchecked`.

use vstd::prelude::*;
use vstd::string::StringExecFns;

use crate::diagnostic::{emit, plain_diagnostic, views, Diagnostic, DiagnosticView, Severity};
use crate::facts::{
    callee_function, closure_argument_body, closure_body, header_range, impl_header, implements,
    impls_trait, named_adt, named_trait, resolve_callee, resolve_self_ty_to_adt, resolve_trait,
};
use crate::pin_misuse::{is_pin_project_expansion, pin_project_expansion};
use crate::sequences::{concat_map, indices, lemma_concat_map_step};
use crate::text::{
    contains_string, contains_text, distinct, insert_string, is_text, join, joined,
    lemma_with_elements_add, lemma_with_elements_push, occurs_in, same_text, text_is, texts,
    with_elements,
};
use crate::tree::{descendants, parent_ok, parents_ok, subtree};
use crate::wellformed::lemma_parents_ok;
use crate::workspace::{
    AdtKind, CallSite, Expansion, FieldDef, FileRange, FnItem, ImplDef, ImplItem, ImplMember, Node,
    NodeKind, TypeInfo, TypeSyntax, Workspace,
};

verus! {

// ---------------------------------------------------------------------------
// Meaning
// ---------------------------------------------------------------------------

/// The field that node `e` borrows mutably, for an expression `&mut place.field`.
pub open spec fn borrowed_field(nodes: Seq<Node>, e: int) -> Option<Seq<char>> {
    match nodes[e].kind {
        NodeKind::RefExpr { mutable: true, expr: Some(inner) } => match nodes[inner as int].kind {
            NodeKind::Field(access) => match access.name {
                Some(name) => Some(name@),
                None => None,
            },
            _ => None,
        },
        _ => None,
    }
}

/// The function at a node, for a node that is one.
pub open spec fn fn_at(nodes: Seq<Node>, n: int) -> FnItem {
    nodes[n].kind->FnItem_0
}

/// Whether the closest function around node `m` is unsafe.
pub open spec fn inside_unsafe_fn(nodes: Seq<Node>, m: int) -> bool
    decreases m,
{
    match nodes[m].parent {
        Some(p) if p < m => match nodes[p as int].kind {
            NodeKind::FnItem(function) => function.is_unsafe,
            _ => inside_unsafe_fn(nodes, p as int),
        },
        _ => false,
    }
}

/// Whether a macro call is known to pin soundly: one of the `pin-project` family, or one that
/// stands in `pin_utils` or `futures_util`.
pub open spec fn pin_macro_expansion(expansion: Expansion) -> bool {
    ||| pin_project_expansion(expansion)
    ||| text_is(expansion.called_in, "pin_utils"@)
    ||| text_is(expansion.called_in, "futures_util"@)
}

/// Whether a call was expanded from a macro call that is known to pin soundly.
pub open spec fn from_pin_macro(site: CallSite) -> bool {
    exists|k: int|
        0 <= k < site.expansions@.len() && pin_macro_expansion(#[trigger] site.expansions@[k])
}

/// How a field is mentioned in a message.
pub open spec fn mention(field: FieldDef) -> Seq<char> {
    if occurs_in("PhantomPinned"@, field.ty.display@) {
        "`"@ + field.name@ + "` (contains `PhantomPinned`)"@
    } else {
        "`"@ + field.name@ + "`"@
    }
}

/// Picks the fields that make an `Unpin` impl unsound: structurally pinned, not covered by a
/// bound, and of a type that is not `Unpin`.
pub open spec fn offending(
    structural: Seq<Seq<char>>,
    bounded: Seq<Seq<char>>,
    unpin_trait: usize,
) -> spec_fn(FieldDef) -> Option<Seq<char>> {
    |field: FieldDef|
        if structural.contains(field.name@) && !bounded.contains(field.ty.display@) && !implements(
            field.ty,
            unpin_trait,
        ) {
            Some(mention(field))
        } else {
            None
        }
}

/// The message for an unsound `Unpin` impl.
pub open spec fn unsound_unpin_message(offenders: Seq<Seq<char>>) -> Seq<char> {
    "`impl Unpin` is unsound: structurally pinned field(s) "@ + joined(offenders, ", "@)
        + " have type(s) that are not `Unpin`. Either remove this manual `Unpin` impl (the auto-trait would correctly leave the type `!Unpin`), or add `Unpin` bounds covering each pinned field's type."@
}

/// The message for a call of `Pin::new_unchecked`.
pub open spec fn new_unchecked_message() -> Seq<char> {
    "`Pin::new_unchecked` is `unsafe`; the caller must guarantee that the pointee will not be moved before its drop. If pinning a heap value, prefer `Box::pin`. If pinning a stack value, prefer the `pin!` macro from `core::pin` (Rust 1.68+) or the `pin-utils` crate. Suppress this hint with `#[allow(...)]` if the safety reasoning is documented at the call site."@
}

impl Workspace {
    /// Whether a function takes `self` as a `Pin`.
    pub open spec fn takes_pin(self, function: FnItem) -> bool {
        &&& function.self_param_type matches Some(ty)
        &&& named_adt(ty) matches Some(adt)
        &&& self.pin_struct(adt)
    }

    /// Picks the fields that `self.map_unchecked_mut(|place| &mut place.field)` projects to.
    pub open spec fn projected_field(self, nodes: Seq<Node>) -> spec_fn(usize) -> Option<Seq<char>> {
        |m: usize|
            match nodes[m as int].kind {
                NodeKind::MethodCall(call) => if text_is(call.name, "map_unchecked_mut"@)
                    && self.pin_call_on_self(nodes, call) {
                    match closure_body(nodes, call) {
                        Some(body) => borrowed_field(nodes, body as int),
                        None => None,
                    }
                } else {
                    None
                },
                _ => None,
            }
    }

    /// The fields that the code below a node projects to.
    pub open spec fn projected_in(self, nodes: Seq<Node>, body: usize) -> Seq<Seq<char>> {
        subtree(nodes, body).filter_map(self.projected_field(nodes))
    }

    /// The fields that a member of an impl projects to.
    pub open spec fn projected_by_member(self) -> spec_fn(ImplMember) -> Seq<Seq<char>> {
        |member: ImplMember|
            match member {
                ImplMember::Function(Some(source)) => {
                    let nodes = self.tree(source.file as int);
                    let function = fn_at(nodes, source.node as int);
                    match function.body {
                        Some(body) => if self.takes_pin(function) {
                            self.projected_in(nodes, body)
                        } else {
                            Seq::empty()
                        },
                        None => Seq::empty(),
                    }
                },
                _ => Seq::empty(),
            }
    }

    /// The fields that an inherent impl projects to.
    pub open spec fn projected_by_impl(self) -> spec_fn(ImplDef) -> Seq<Seq<char>> {
        |imp: ImplDef|
            if imp.is_trait_impl {
                Seq::empty()
            } else {
                concat_map(imp.items@, self.projected_by_member())
            }
    }

    /// The structurally pinned fields of a type: those that a method of an inherent impl, in
    /// whatever file, projects to.
    pub open spec fn cross_file_fields(self, adt: usize) -> Seq<Seq<char>> {
        distinct(concat_map(self.adts@[adt as int].impls@, self.projected_by_impl()))
    }

    /// Whether a written type is a trait called `Unpin`.
    pub open spec fn unpin_trait_path(self, ty: TypeSyntax) -> bool {
        named_trait(ty) matches Some(t) && self.traits@[t as int].name@ == "Unpin"@
    }

    /// The fields that make an impl unsound, as they are mentioned in the message.
    pub open spec fn offenders(self, item: ImplItem) -> Seq<Seq<char>> {
        match (item.trait_type, item.self_type) {
            (Some(trait_type), Some(self_type)) => match (
                named_adt(self_type),
                self.marker_trait("Unpin"@),
            ) {
                (Some(adt), Some(unpin_trait)) => if self.unpin_trait_path(trait_type)
                    && self.adts@[adt as int].kind == AdtKind::Struct {
                    self.adts@[adt as int].fields@.filter_map(
                        offending(
                            self.cross_file_fields(adt),
                            self.unpin_bounded_types(item),
                            unpin_trait,
                        ),
                    )
                } else {
                    Seq::empty()
                },
                _ => Seq::empty(),
            },
            _ => Seq::empty(),
        }
    }

    /// The diagnostic for node `m`, if it is an unsound `Unpin` impl.
    pub open spec fn unsound_unpin_at(self, file: int) -> spec_fn(usize) -> Seq<DiagnosticView> {
        |m: usize|
            match self.tree(file)[m as int].kind {
                NodeKind::Impl(item) => if self.offenders(item).len() > 0 {
                    seq![
                        plain_diagnostic(
                            "pin-unsound-unpin-impl"@,
                            Severity::Warning,
                            unsound_unpin_message(self.offenders(item)),
                            FileRange {
                                file_id: self.files@[file].file_id,
                                range: impl_header(item, self.tree(file)[m as int].range),
                            },
                        ),
                    ]
                } else {
                    Seq::empty()
                },
                _ => Seq::empty(),
            }
    }

    /// Whether node `m` calls `Pin::new_unchecked` outside of an unsafe function and of the
    /// known pinning macros.
    pub open spec fn pins_unchecked(self, nodes: Seq<Node>, m: int) -> bool {
        &&& nodes[m].kind matches NodeKind::Call(call)
        &&& callee_function(nodes, m) matches Some(f)
        &&& self.functions@[f as int].name@ == "new_unchecked"@
        &&& self.pin_function(f)
        &&& !inside_unsafe_fn(nodes, m)
        &&& !from_pin_macro(call.site)
    }

    /// The diagnostic for node `m`, if it calls `Pin::new_unchecked`.
    pub open spec fn new_unchecked_at(self, file: int) -> spec_fn(usize) -> Seq<DiagnosticView> {
        |m: usize|
            if self.pins_unchecked(self.tree(file), m as int) {
                seq![
                    plain_diagnostic(
                        "pin-new-unchecked-unjustified"@,
                        Severity::WeakWarning,
                        new_unchecked_message(),
                        FileRange {
                            file_id: self.files@[file].file_id,
                            range: self.tree(file)[m as int].range,
                        },
                    ),
                ]
            } else {
                Seq::empty()
            }
    }

    /// The diagnostics for the unsound `Unpin` impls of a file, in document order.
    pub open spec fn unsound_unpin_impls(self, file: int) -> Seq<DiagnosticView> {
        concat_map(indices(self.tree(file).len()), self.unsound_unpin_at(file))
    }

    /// The diagnostics for the calls of `Pin::new_unchecked` of a file, in document order.
    pub open spec fn new_unchecked_calls(self, file: int) -> Seq<DiagnosticView> {
        concat_map(indices(self.tree(file).len()), self.new_unchecked_at(file))
    }
}

// ---------------------------------------------------------------------------
// Checks
// ---------------------------------------------------------------------------

/// Whether the closest function around node `m` is unsafe.
pub fn is_inside_unsafe_fn(nodes: &Vec<Node>, m: usize) -> (answer: bool)
    requires
        m < nodes@.len(),
        parents_ok(nodes@),
    ensures
        answer == inside_unsafe_fn(nodes@, m as int),
{
    let mut current: usize = m;
    loop
        invariant
            current < nodes@.len(),
            parents_ok(nodes@),
            inside_unsafe_fn(nodes@, m as int) == inside_unsafe_fn(nodes@, current as int),
        decreases current,
    {
        assert(parent_ok(nodes@, current as int));
        match nodes[current].parent {
            Some(p) => {
                match &nodes[p].kind {
                    NodeKind::FnItem(function) => {
                        return function.is_unsafe;
                    },
                    _ => {
                        current = p;
                    },
                }
            },
            None => {
                return false;
            },
        }
    }
}

/// Whether a call was expanded from a macro call that is known to pin soundly.
pub fn originates_from_known_pin_macro(site: &CallSite) -> (answer: bool)
    ensures
        answer == from_pin_macro(*site),
{
    let mut k: usize = 0;
    while k < site.expansions.len()
        invariant
            k <= site.expansions@.len(),
            forall|j: int| 0 <= j < k ==> !pin_macro_expansion(#[trigger] site.expansions@[j]),
        decreases site.expansions.len() - k,
    {
        let expansion = &site.expansions[k];
        if is_pin_project_expansion(expansion) || is_text(&expansion.called_in, "pin_utils")
            || is_text(&expansion.called_in, "futures_util") {
            assert(pin_macro_expansion(site.expansions@[k as int]));
            return true;
        }
        k += 1;
    }
    false
}

/// Whether the type of a field is among the types that are bounded by `Unpin`.
pub fn field_ty_is_bounded_unpin(ty: &TypeInfo, bounded: &Vec<String>) -> (answer: bool)
    ensures
        answer == texts(bounded@).contains(ty.display@),
{
    contains_string(bounded, ty.display.as_str())
}

/// Whether the type of a field mentions `PhantomPinned`.
pub fn field_ty_mentions_phantom_pinned(ty: &TypeInfo) -> (answer: bool)
    ensures
        answer == occurs_in("PhantomPinned"@, ty.display@),
{
    contains_text(ty.display.as_str(), "PhantomPinned")
}

/// How a field is mentioned in a message.
fn mention_field(field: &FieldDef) -> (words: String)
    ensures
        words@ == mention(*field),
{
    let start: String = "`".to_owned().concat(field.name.as_str());
    if field_ty_mentions_phantom_pinned(&field.ty) {
        start.concat("` (contains `PhantomPinned`)")
    } else {
        start.concat("`")
    }
}

/// Collects the fields that make an `Unpin` impl unsound.
fn collect_offenders(
    fields: &Vec<FieldDef>,
    structural: &Vec<String>,
    bounded: &Vec<String>,
    unpin_trait: usize,
) -> (offenders: Vec<String>)
    ensures
        texts(offenders@) == fields@.filter_map(
            offending(texts(structural@), texts(bounded@), unpin_trait),
        ),
{
    let ghost pick = offending(texts(structural@), texts(bounded@), unpin_trait);
    let mut offenders: Vec<String> = Vec::new();
    assert(texts(offenders@) =~= fields@.take(0).filter_map(pick));
    let mut k: usize = 0;
    while k < fields.len()
        invariant
            k <= fields@.len(),
            pick == offending(texts(structural@), texts(bounded@), unpin_trait),
            texts(offenders@) == fields@.take(k as int).filter_map(pick),
        decreases fields.len() - k,
    {
        let ghost before = offenders@;
        let field = &fields[k];
        proof {
            fields@.lemma_filter_map_take_succ(pick, k as int);
        }
        if contains_string(structural, field.name.as_str()) && !field_ty_is_bounded_unpin(
            &field.ty,
            bounded,
        ) && !impls_trait(&field.ty, unpin_trait) {
            offenders.push(mention_field(field));
            assert(texts(offenders@) =~= texts(before) + seq![mention(*field)]);
        }
        k += 1;
    }
    assert(fields@.take(k as int) =~= fields@);
    offenders
}

impl Workspace {
    /// Finds the unsound `Unpin` impls and the calls of `Pin::new_unchecked` of a file.
    pub fn pin_unpina(&self, file: usize) -> (diagnostics: Vec<Diagnostic>)
        requires
            self.wf(),
            file < self.files@.len(),
        ensures
            views(diagnostics@) == self.unsound_unpin_impls(file as int) + self.new_unchecked_calls(
                file as int,
            ),
    {
        let mut diagnostics: Vec<Diagnostic> = Vec::new();
        assert(views(diagnostics@) =~= Seq::<DiagnosticView>::empty());
        self.check_unsound_unpin_impls(file, &mut diagnostics);
        self.check_pin_new_unchecked_calls(file, &mut diagnostics);
        proof {
            let empty = Seq::<DiagnosticView>::empty();
            assert(empty + self.unsound_unpin_impls(file as int) =~= self.unsound_unpin_impls(
                file as int,
            ));
        }
        diagnostics
    }

    /// Reports the unsound `Unpin` impls of a file.
    pub fn check_unsound_unpin_impls(&self, file: usize, out: &mut Vec<Diagnostic>)
        requires
            self.wf(),
            file < self.files@.len(),
        ensures
            views(final(out)@) == views(old(out)@) + self.unsound_unpin_impls(file as int),
    {
        let nodes = &self.files[file].nodes;
        let file_id: u32 = self.files[file].file_id;
        let ghost all = indices(nodes@.len());
        let ghost part = self.unsound_unpin_at(file as int);
        let ghost start = views(out@);
        assert(start =~= start + concat_map(all.take(0), part));
        let mut m: usize = 0;
        while m < nodes.len()
            invariant
                self.wf(),
                file < self.files@.len(),
                nodes@ == self.tree(file as int),
                file_id == self.files@[file as int].file_id,
                all == indices(nodes@.len()),
                part == self.unsound_unpin_at(file as int),
                m <= nodes@.len(),
                views(out@) == start + concat_map(all.take(m as int), part),
            decreases nodes.len() - m,
        {
            let ghost before = views(out@);
            proof {
                lemma_concat_map_step(all, part, m as int);
                assert(all[m as int] == m);
                assert(self.tree_ok(self.tree(file as int)));
                assert(self.node_ok(nodes@, m as int));
            }
            if let NodeKind::Impl(item) = &nodes[m].kind {
                let offenders: Vec<String> = self.unpin_impl_offenders(item);
                if offenders.len() > 0 {
                    let fields_list: String = join(&offenders, ", ");
                    let message: String =
                        "`impl Unpin` is unsound: structurally pinned field(s) ".to_owned().concat(
                        fields_list.as_str(),
                    ).concat(
                        " have type(s) that are not `Unpin`. Either remove this manual `Unpin` impl (the auto-trait would correctly leave the type `!Unpin`), or add `Unpin` bounds covering each pinned field's type.",
                    );
                    emit(
                        out,
                        Diagnostic::new(
                            "pin-unsound-unpin-impl",
                            Severity::Warning,
                            message,
                            FileRange { file_id, range: header_range(item, nodes[m].range) },
                        ),
                    );
                }
            }
            proof {
                assert(views(out@) =~= before + part(m));
                assert(views(out@) =~= start + concat_map(all.take(m + 1), part));
            }
            m += 1;
        }
        assert(all.take(m as int) =~= all);
    }

    /// The fields that make an impl, if it is one of `Unpin`, unsound.
    fn unpin_impl_offenders(&self, item: &ImplItem) -> (offenders: Vec<String>)
        requires
            self.wf(),
            exists|nodes: Seq<Node>| self.impl_ok(*item, nodes),
        ensures
            texts(offenders@) == self.offenders(*item),
    {
        let none: Vec<String> = Vec::new();
        assert(texts(none@) =~= Seq::<Seq<char>>::empty());
        let trait_type = match &item.trait_type {
            Some(ty) => ty,
            None => {
                return none;
            },
        };
        if !self.is_unpin_trait_path(trait_type) {
            return none;
        }
        let self_type = match &item.self_type {
            Some(ty) => ty,
            None => {
                return none;
            },
        };
        let adt: usize = match resolve_self_ty_to_adt(self_type) {
            Some(adt) => adt,
            None => {
                return none;
            },
        };
        let structural: Vec<String> = self.collect_structural_fields_cross_file(adt);
        let bounded: Vec<String> = self.collect_unpin_bounds(item);
        if self.adts[adt].kind != AdtKind::Struct {
            return none;
        }
        match self.find_marker_trait("Unpin") {
            Some(unpin_trait) => collect_offenders(
                &self.adts[adt].fields,
                &structural,
                &bounded,
                unpin_trait,
            ),
            None => none,
        }
    }

    /// Whether a written type is a trait called `Unpin`.
    pub fn is_unpin_trait_path(&self, ty: &TypeSyntax) -> (answer: bool)
        requires
            self.type_ok(Some(*ty)),
        ensures
            answer == self.unpin_trait_path(*ty),
    {
        match resolve_trait(ty) {
            Some(t) => same_text(self.traits[t].name.as_str(), "Unpin"),
            None => false,
        }
    }

    /// Collects the structurally pinned fields of a type from all its inherent impls.
    pub fn collect_structural_fields_cross_file(&self, adt: usize) -> (structural: Vec<String>)
        requires
            self.wf(),
            adt < self.adts@.len(),
        ensures
            texts(structural@) == self.cross_file_fields(adt),
    {
        let mut structural: Vec<String> = Vec::new();
        let impls = &self.adts[adt].impls;
        let ghost part = self.projected_by_impl();
        let ghost empty = Seq::<Seq<char>>::empty();
        assert(self.adt_ok(self.adts@[adt as int]));
        assert(texts(structural@) =~= with_elements(empty, concat_map(impls@.take(0), part)));
        let mut k: usize = 0;
        while k < impls.len()
            invariant
                self.wf(),
                k <= impls@.len(),
                forall|j: int| 0 <= j < impls@.len() ==> self.impl_def_ok(#[trigger] impls@[j]),
                part == self.projected_by_impl(),
                empty == Seq::<Seq<char>>::empty(),
                texts(structural@) == with_elements(
                    empty,
                    concat_map(impls@.take(k as int), part),
                ),
            decreases impls.len() - k,
        {
            let imp = &impls[k];
            proof {
                lemma_concat_map_step(impls@, part, k as int);
                lemma_with_elements_add(
                    empty,
                    concat_map(impls@.take(k as int), part),
                    part(impls@[k as int]),
                );
            }
            if !imp.is_trait_impl {
                self.classify_impl_into(imp, &mut structural);
            }
            k += 1;
        }
        assert(impls@.take(k as int) =~= impls@);
        structural
    }

    /// Adds the fields that the methods of an impl project to.
    fn classify_impl_into(&self, imp: &ImplDef, out: &mut Vec<String>)
        requires
            self.wf(),
            self.impl_def_ok(*imp),
        ensures
            texts(final(out)@) == with_elements(
                texts(old(out)@),
                concat_map(imp.items@, self.projected_by_member()),
            ),
    {
        let ghost part = self.projected_by_member();
        let ghost start = texts(out@);
        let mut k: usize = 0;
        while k < imp.items.len()
            invariant
                self.wf(),
                self.impl_def_ok(*imp),
                k <= imp.items@.len(),
                part == self.projected_by_member(),
                texts(out@) == with_elements(start, concat_map(imp.items@.take(k as int), part)),
            decreases imp.items.len() - k,
        {
            proof {
                lemma_concat_map_step(imp.items@, part, k as int);
                lemma_with_elements_add(
                    start,
                    concat_map(imp.items@.take(k as int), part),
                    part(imp.items@[k as int]),
                );
            }
            if let ImplMember::Function(Some(source)) = imp.items[k] {
                assert(imp.items@[k as int] == ImplMember::Function(Some(source)));
                let nodes = &self.files[source.file].nodes;
                proof {
                    assert(self.tree_ok(self.tree(source.file as int)));
                    assert(self.node_ok(nodes@, source.node as int));
                }
                if let NodeKind::FnItem(function) = &nodes[source.node].kind {
                    if self.receiver_is_pin(function) {
                        if let Some(body) = function.body {
                            self.classify_into(source.file, body, out);
                        }
                    }
                }
            }
            k += 1;
        }
        assert(imp.items@.take(k as int) =~= imp.items@);
    }

    /// Adds the fields that the code below node `body` projects to.
    pub fn classify_into(&self, file: usize, body: usize, out: &mut Vec<String>)
        requires
            self.wf(),
            file < self.files@.len(),
            body < self.tree(file as int).len(),
        ensures
            texts(final(out)@) == with_elements(
                texts(old(out)@),
                self.projected_in(self.tree(file as int), body),
            ),
    {
        let nodes = &self.files[file].nodes;
        let ghost pick = self.projected_field(nodes@);
        let ghost start = texts(out@);
        proof {
            lemma_parents_ok(*self, file as int);
        }
        let list: Vec<usize> = descendants(nodes, body);
        let mut k: usize = 0;
        while k < list.len()
            invariant
                self.wf(),
                file < self.files@.len(),
                nodes@ == self.tree(file as int),
                forall|j: int| 0 <= j < list@.len() ==> #[trigger] list@[j] < nodes@.len(),
                k <= list@.len(),
                pick == self.projected_field(nodes@),
                texts(out@) == with_elements(start, list@.take(k as int).filter_map(pick)),
            decreases list.len() - k,
        {
            let m: usize = list[k];
            let ghost before = list@.take(k as int).filter_map(pick);
            proof {
                list@.lemma_filter_map_take_succ(pick, k as int);
                assert(self.tree_ok(self.tree(file as int)));
                assert(self.node_ok(nodes@, m as int));
            }
            if let NodeKind::MethodCall(call) = &nodes[m].kind {
                if is_text(&call.name, "map_unchecked_mut") && self.is_pin_call_on_self(
                    nodes,
                    call,
                ) {
                    assert(call.args matches Some(args) ==> args@.len() > 0 ==> args@[0]
                        < nodes@.len());
                    if let Some(closure) = closure_argument_body(nodes, call) {
                        proof {
                            let a = call.args->0@[0];
                            assert(self.node_ok(nodes@, a as int));
                            assert(self.node_ok(nodes@, closure as int));
                        }
                        if let Some(field) = field_name_from_ref(nodes, closure) {
                            insert_string(out, field.as_str());
                            proof {
                                lemma_with_elements_push(start, before, field@);
                                assert(before.push(field@) =~= before + seq![field@]);
                            }
                        }
                    }
                }
            }
            k += 1;
        }
        assert(list@.take(k as int) =~= list@);
    }

    /// Whether a function takes `self` as a `Pin`.
    pub fn receiver_is_pin(&self, function: &FnItem) -> (answer: bool)
        requires
            self.type_ok(function.self_param_type),
        ensures
            answer == self.takes_pin(*function),
    {
        match &function.self_param_type {
            Some(ty) => match resolve_self_ty_to_adt(ty) {
                Some(adt) => self.is_pin_struct(adt),
                None => false,
            },
            None => false,
        }
    }

    /// Reports the calls of `Pin::new_unchecked` of a file.
    pub fn check_pin_new_unchecked_calls(&self, file: usize, out: &mut Vec<Diagnostic>)
        requires
            self.wf(),
            file < self.files@.len(),
        ensures
            views(final(out)@) == views(old(out)@) + self.new_unchecked_calls(file as int),
    {
        let nodes = &self.files[file].nodes;
        let file_id: u32 = self.files[file].file_id;
        let ghost all = indices(nodes@.len());
        let ghost part = self.new_unchecked_at(file as int);
        let ghost start = views(out@);
        assert(start =~= start + concat_map(all.take(0), part));
        proof {
            lemma_parents_ok(*self, file as int);
        }
        let mut m: usize = 0;
        while m < nodes.len()
            invariant
                self.wf(),
                file < self.files@.len(),
                nodes@ == self.tree(file as int),
                parents_ok(nodes@),
                file_id == self.files@[file as int].file_id,
                all == indices(nodes@.len()),
                part == self.new_unchecked_at(file as int),
                m <= nodes@.len(),
                views(out@) == start + concat_map(all.take(m as int), part),
            decreases nodes.len() - m,
        {
            let ghost before = views(out@);
            proof {
                lemma_concat_map_step(all, part, m as int);
                assert(all[m as int] == m);
            }
            if self.is_unjustified_new_unchecked(file, m) {
                emit(
                    out,
                    Diagnostic::new(
                        "pin-new-unchecked-unjustified",
                        Severity::WeakWarning,
                        "`Pin::new_unchecked` is `unsafe`; the caller must guarantee that the pointee will not be moved before its drop. If pinning a heap value, prefer `Box::pin`. If pinning a stack value, prefer the `pin!` macro from `core::pin` (Rust 1.68+) or the `pin-utils` crate. Suppress this hint with `#[allow(...)]` if the safety reasoning is documented at the call site.".to_owned(),
                        FileRange { file_id, range: nodes[m].range },
                    ),
                );
            }
            proof {
                assert(views(out@) =~= before + part(m));
                assert(views(out@) =~= start + concat_map(all.take(m + 1), part));
            }
            m += 1;
        }
        assert(all.take(m as int) =~= all);
    }

    /// Whether node `m` calls `Pin::new_unchecked` outside of an unsafe function and of the
    /// known pinning macros.
    fn is_unjustified_new_unchecked(&self, file: usize, m: usize) -> (answer: bool)
        requires
            self.wf(),
            file < self.files@.len(),
            m < self.tree(file as int).len(),
            parents_ok(self.tree(file as int)),
        ensures
            answer == self.pins_unchecked(self.tree(file as int), m as int),
    {
        let nodes = &self.files[file].nodes;
        proof {
            assert(self.tree_ok(self.tree(file as int)));
            assert(self.node_ok(nodes@, m as int));
        }
        match &nodes[m].kind {
            NodeKind::Call(call) => match resolve_callee(nodes, m) {
                Some(f) => {
                    assert(self.node_ok(nodes@, call.callee->0 as int));
                    same_text(self.functions[f].name.as_str(), "new_unchecked")
                        && self.is_pin_function(f) && !is_inside_unsafe_fn(nodes, m)
                        && !originates_from_known_pin_macro(&call.site)
                },
                None => false,
            },
            _ => false,
        }
    }
}

/// The field that node `e` borrows mutably, for an expression `&mut place.field`.
pub fn field_name_from_ref(nodes: &Vec<Node>, e: usize) -> (field: Option<String>)
    requires
        e < nodes@.len(),
        nodes@[e as int].kind matches NodeKind::RefExpr { mutable, expr } ==> (expr matches Some(i)
            ==> i < nodes@.len()),
    ensures
        (match field {
            Some(field) => Some(field@),
            None => None,
        }) == borrowed_field(nodes@, e as int),
{
    match &nodes[e].kind {
        NodeKind::RefExpr { mutable, expr } => {
            if !*mutable {
                return None;
            }
            match *expr {
                Some(inner) => match &nodes[inner].kind {
                    NodeKind::Field(access) => match &access.name {
                        Some(name) => Some(name.clone()),
                        None => None,
                    },
                    _ => None,
                },
                None => None,
            }
        },
        _ => None,
    }
}

} // verus!
