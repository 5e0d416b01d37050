//! Questions about paths, types and items that several checks ask.

use vstd::prelude::*;

use crate::sequences::{
    first_some, lemma_first_some_prefix, lemma_first_some_step,
};
use crate::text::{
    distinct, insert_string, is_text, lemma_with_elements_push, same_text, text_is, texts,
};
use crate::workspace::{
    AdtKind, CrateDef, Declaration, FnContainer, ImplItem, MethodCall, ModuleDef, Node, NodeKind,
    Path, Resolution, TextRange, TypeInfo, TypeKind, TypeParam, TypeSyntax, WherePredicate,
    Workspace,
};

verus! {

// ---------------------------------------------------------------------------
// What the questions mean
// ---------------------------------------------------------------------------

/// Whether a crate is `core` or `std`.
pub open spec fn core_or_std(name: Option<String>) -> bool {
    text_is(name, "core"@) || text_is(name, "std"@)
}

/// Whether the last segment of a path spells `name`.
pub open spec fn path_ends_in(path: Path, name: Seq<char>) -> bool {
    path.segment matches Some(segment) && text_is(segment.name, name)
}

/// Whether node `e` is the expression `self`.
pub open spec fn self_expr(nodes: Seq<Node>, e: int) -> bool {
    nodes[e].kind matches NodeKind::PathExpr(Some(p)) && path_ends_in(p, "self"@)
}

/// The place that stands for an impl in diagnostics: its `impl` keyword.
pub open spec fn impl_header(item: ImplItem, node_range: TextRange) -> TextRange {
    match item.impl_token {
        Some(range) => range,
        None => node_range,
    }
}

/// Whether a type implements a trait.
pub open spec fn implements(ty: TypeInfo, of_trait: usize) -> bool {
    ty.implements@.contains(of_trait)
}

/// Whether a value of the type, once pinned, is one that implements a trait: what a pointer
/// points to, or else the value itself.
pub open spec fn pinned_implements(ty: TypeInfo, of_trait: usize) -> bool {
    match ty.target_implements {
        Some(target) => target@.contains(of_trait),
        None => implements(ty, of_trait),
    }
}

/// The body of the closure that is the first argument of a method call.
pub open spec fn closure_body(nodes: Seq<Node>, call: MethodCall) -> Option<usize> {
    match call.args {
        Some(args) => if args@.len() > 0 {
            match nodes[args@[0] as int].kind {
                NodeKind::Closure { body } => body,
                _ => None,
            }
        } else {
            None
        },
        None => None,
    }
}

/// The function that the callee of node `m`, a call, names by a path.
pub open spec fn callee_function(nodes: Seq<Node>, m: int) -> Option<usize> {
    match nodes[m].kind {
        NodeKind::Call(call) => match call.callee {
            Some(callee) => match nodes[callee as int].kind {
                NodeKind::PathExpr(Some(p)) => match p.resolution {
                    Some(Resolution::Function(f)) => Some(f),
                    _ => None,
                },
                _ => None,
            },
            None => None,
        },
        _ => None,
    }
}

/// Whether the callee of node `m`, a call, names a tuple struct or tuple variant by a path.
pub open spec fn constructs(nodes: Seq<Node>, m: int) -> bool {
    &&& nodes[m].kind matches NodeKind::Call(call)
    &&& call.callee matches Some(callee)
    &&& nodes[callee as int].kind matches NodeKind::PathExpr(Some(path))
    &&& path.resolution == Some(Resolution::Constructor)
}

/// The struct, enum or union that a written type names by a path.
pub open spec fn named_adt(ty: TypeSyntax) -> Option<usize> {
    match ty.kind {
        TypeKind::Path(Some(p)) => match p.resolution {
            Some(Resolution::Adt(a)) => Some(a),
            _ => None,
        },
        _ => None,
    }
}

/// The trait that a written type names by a path.
pub open spec fn named_trait(ty: TypeSyntax) -> Option<usize> {
    match ty.kind {
        TypeKind::Path(Some(p)) => match p.resolution {
            Some(Resolution::Trait(t)) => Some(t),
            _ => None,
        },
        _ => None,
    }
}

impl Workspace {
    /// Whether a type is the struct `Pin` of the module `pin` of `core` or `std`.
    pub open spec fn pin_struct(self, adt: usize) -> bool {
        let def = self.adts@[adt as int];
        &&& def.kind == AdtKind::Struct
        &&& def.name@ == "Pin"@
        &&& text_is(def.module_name, "pin"@)
        &&& core_or_std(def.crate_name)
    }

    /// Whether a function belongs to an impl of `Pin`.
    pub open spec fn pin_function(self, function: usize) -> bool {
        self.functions@[function as int].container matches FnContainer::Impl(Some(adt))
            && self.pin_struct(adt)
    }

    /// Whether a method call calls a function of `Pin` on `self`.
    pub open spec fn pin_call_on_self(self, nodes: Seq<Node>, call: MethodCall) -> bool {
        &&& call.resolved matches Some(f)
        &&& self.pin_function(f)
        &&& call.receiver matches Some(r)
        &&& self_expr(nodes, r as int)
    }

    /// Picks the declaration of a trait with the given name.
    pub open spec fn trait_named(self, name: Seq<char>) -> spec_fn(Declaration) -> Option<usize> {
        |declaration: Declaration|
            match declaration {
                Declaration::Trait(t) => if self.traits@[t as int].name@ == name {
                    Some(t)
                } else {
                    None
                },
                Declaration::Other => None,
            }
    }

    /// Picks, from `core` and `std`, the trait with the given name that the first module called
    /// `marker` declares.
    pub open spec fn marker_of_crate(self, name: Seq<char>) -> spec_fn(CrateDef) -> Option<usize> {
        |krate: CrateDef|
            if core_or_std(krate.name) {
                match first_some(krate.modules@, marker_module()) {
                    Some(module) => first_some(module.declarations@, self.trait_named(name)),
                    None => None,
                }
            } else {
                None
            }
    }

    /// The marker trait with the given name: the first that a crate gives.
    pub open spec fn marker_trait(self, name: Seq<char>) -> Option<usize> {
        first_some(self.crates@, self.marker_of_crate(name))
    }

    /// Whether a bound of a `where` clause is a trait called `Unpin`.
    pub open spec fn unpin_bound(self, bound: Option<TypeSyntax>) -> bool {
        bound matches Some(ty) && (named_trait(ty) matches Some(t) && self.traits@[t as int].name@
            == "Unpin"@)
    }

    /// Whether one of the bounds, if there are any, is a trait called `Unpin`.
    pub open spec fn unpin_among(self, bounds: Option<Vec<Option<TypeSyntax>>>) -> bool {
        bounds matches Some(list) && exists|k: int|
            0 <= k < list@.len() && self.unpin_bound(#[trigger] list@[k])
    }

    /// Picks the name of a parameter that is bounded by `Unpin`.
    pub open spec fn unpin_param(self) -> spec_fn(TypeParam) -> Option<Seq<char>> {
        |param: TypeParam|
            match param.name {
                Some(name) => if self.unpin_among(param.bounds) {
                    Some(name@)
                } else {
                    None
                },
                None => None,
            }
    }

    /// Picks the text of the type that a predicate bounds by `Unpin`.
    pub open spec fn unpin_predicate(self) -> spec_fn(WherePredicate) -> Option<Seq<char>> {
        |predicate: WherePredicate|
            match predicate.ty {
                Some(ty) => if self.unpin_among(predicate.bounds) {
                    Some(ty.text@)
                } else {
                    None
                },
                None => None,
            }
    }

    /// The types, as written, that the `where` clause of an impl bounds by `Unpin`.
    pub open spec fn unpin_predicates(self, item: ImplItem) -> Seq<Seq<char>> {
        match item.where_predicates {
            Some(predicates) => predicates@.filter_map(self.unpin_predicate()),
            None => Seq::empty(),
        }
    }

    /// The types, as written, that an impl bounds by `Unpin`: in its parameter list or in its
    /// `where` clause.
    pub open spec fn unpin_bounded_types(self, item: ImplItem) -> Seq<Seq<char>> {
        distinct(item.type_params@.filter_map(self.unpin_param()) + self.unpin_predicates(item))
    }
}

/// Picks a module called `marker`.
pub open spec fn marker_module() -> spec_fn(ModuleDef) -> Option<ModuleDef> {
    |module: ModuleDef|
        if text_is(module.name, "marker"@) {
            Some(module)
        } else {
            None
        }
}

// ---------------------------------------------------------------------------
// Asking them
// ---------------------------------------------------------------------------

/// Whether a crate is `core` or `std`.
pub fn is_core_or_std(name: &Option<String>) -> (answer: bool)
    ensures
        answer == core_or_std(*name),
{
    is_text(name, "core") || is_text(name, "std")
}

/// Whether the last segment of a path spells `name`.
pub fn does_path_end_in(path: &Path, name: &str) -> (answer: bool)
    ensures
        answer == path_ends_in(*path, name@),
{
    match &path.segment {
        Some(segment) => is_text(&segment.name, name),
        None => false,
    }
}

/// Whether node `e` is the expression `self`.
pub fn is_self_expr(nodes: &Vec<Node>, e: usize) -> (answer: bool)
    requires
        e < nodes@.len(),
    ensures
        answer == self_expr(nodes@, e as int),
{
    match &nodes[e].kind {
        NodeKind::PathExpr(Some(path)) => does_path_end_in(path, "self"),
        _ => false,
    }
}

/// The place that stands for an impl in diagnostics.
pub fn header_range(item: &ImplItem, node_range: TextRange) -> (range: TextRange)
    ensures
        range == impl_header(*item, node_range),
{
    match item.impl_token {
        Some(range) => range,
        None => node_range,
    }
}

/// Whether a type implements a trait.
pub fn impls_trait(ty: &TypeInfo, of_trait: usize) -> (answer: bool)
    ensures
        answer == implements(*ty, of_trait),
{
    holds_trait(&ty.implements, of_trait)
}

/// Whether what a value of the type pins implements a trait.
pub fn pinned_impls_trait(ty: &TypeInfo, of_trait: usize) -> (answer: bool)
    ensures
        answer == pinned_implements(*ty, of_trait),
{
    match &ty.target_implements {
        Some(target) => holds_trait(target, of_trait),
        None => impls_trait(ty, of_trait),
    }
}

/// Whether a trait is in a list.
fn holds_trait(list: &Vec<usize>, of_trait: usize) -> (answer: bool)
    ensures
        answer == list@.contains(of_trait),
{
    let mut k: usize = 0;
    while k < list.len()
        invariant
            k <= list@.len(),
            forall|j: int| 0 <= j < k ==> list@[j] != of_trait,
        decreases list.len() - k,
    {
        if list[k] == of_trait {
            return true;
        }
        k += 1;
    }
    false
}

/// The body of the closure that is the first argument of a method call.
pub fn closure_argument_body(nodes: &Vec<Node>, call: &MethodCall) -> (body: Option<usize>)
    requires
        call.args matches Some(args) ==> args@.len() > 0 ==> args@[0] < nodes@.len(),
    ensures
        body == closure_body(nodes@, *call),
{
    match &call.args {
        Some(args) => {
            if args.len() > 0 {
                match &nodes[args[0]].kind {
                    NodeKind::Closure { body } => *body,
                    _ => None,
                }
            } else {
                None
            }
        },
        None => None,
    }
}

/// The function that the callee of node `m`, a call, names by a path.
pub fn resolve_callee(nodes: &Vec<Node>, m: usize) -> (function: Option<usize>)
    requires
        m < nodes@.len(),
        nodes@[m as int].kind matches NodeKind::Call(call) ==> (call.callee matches Some(c) ==> c
            < nodes@.len()),
    ensures
        function == callee_function(nodes@, m as int),
{
    match &nodes[m].kind {
        NodeKind::Call(call) => match call.callee {
            Some(callee) => match &nodes[callee].kind {
                NodeKind::PathExpr(Some(path)) => match path.resolution {
                    Some(Resolution::Function(f)) => Some(f),
                    _ => None,
                },
                _ => None,
            },
            None => None,
        },
        _ => None,
    }
}

/// Whether the callee of node `m`, a call, names a tuple struct or tuple variant by a path.
pub fn is_constructor_call(nodes: &Vec<Node>, m: usize) -> (answer: bool)
    requires
        m < nodes@.len(),
        nodes@[m as int].kind matches NodeKind::Call(call) ==> (call.callee matches Some(c) ==> c
            < nodes@.len()),
    ensures
        answer == constructs(nodes@, m as int),
{
    match &nodes[m].kind {
        NodeKind::Call(call) => match call.callee {
            Some(callee) => match &nodes[callee].kind {
                NodeKind::PathExpr(Some(path)) => match path.resolution {
                    Some(Resolution::Constructor) => true,
                    _ => false,
                },
                _ => false,
            },
            None => false,
        },
        _ => false,
    }
}

/// The struct, enum or union that a written type names by a path.
pub fn resolve_self_ty_to_adt(ty: &TypeSyntax) -> (adt: Option<usize>)
    ensures
        adt == named_adt(*ty),
{
    match &ty.kind {
        TypeKind::Path(Some(path)) => match path.resolution {
            Some(Resolution::Adt(a)) => Some(a),
            _ => None,
        },
        _ => None,
    }
}

/// The trait that a written type names by a path.
pub fn resolve_trait(ty: &TypeSyntax) -> (found: Option<usize>)
    ensures
        found == named_trait(*ty),
{
    match &ty.kind {
        TypeKind::Path(Some(path)) => match path.resolution {
            Some(Resolution::Trait(t)) => Some(t),
            _ => None,
        },
        _ => None,
    }
}

/// Finds the first module called `marker`.
fn find_marker_module(modules: &Vec<ModuleDef>) -> (found: Option<usize>)
    ensures
        match found {
            Some(k) => k < modules@.len() && first_some(modules@, marker_module()) == Some(
                modules@[k as int],
            ),
            None => first_some(modules@, marker_module()) is None,
        },
{
    let ghost pick = marker_module();
    let mut k: usize = 0;
    while k < modules.len()
        invariant
            k <= modules@.len(),
            pick == marker_module(),
            first_some(modules@.take(k as int), pick) is None,
        decreases modules.len() - k,
    {
        proof {
            lemma_first_some_step(modules@, pick, k as int);
        }
        if is_text(&modules[k].name, "marker") {
            proof {
                lemma_first_some_prefix(modules@, pick, k + 1);
            }
            return Some(k);
        }
        k += 1;
    }
    assert(modules@.take(k as int) =~= modules@);
    None
}

impl Workspace {
    /// Whether a type is the struct `Pin` of the module `pin` of `core` or `std`.
    pub fn is_pin_struct(&self, adt: usize) -> (answer: bool)
        requires
            adt < self.adts@.len(),
        ensures
            answer == self.pin_struct(adt),
    {
        let def = &self.adts[adt];
        def.kind == AdtKind::Struct && same_text(def.name.as_str(), "Pin") && is_text(
            &def.module_name,
            "pin",
        ) && is_core_or_std(&def.crate_name)
    }

    /// Whether a function belongs to an impl of `Pin`.
    pub fn is_pin_function(&self, function: usize) -> (answer: bool)
        requires
            self.wf(),
            function < self.functions@.len(),
        ensures
            answer == self.pin_function(function),
    {
        assert(self.function_ok(self.functions@[function as int]));
        match self.functions[function].container {
            FnContainer::Impl(Some(adt)) => self.is_pin_struct(adt),
            _ => false,
        }
    }

    /// Whether a method call calls a function of `Pin` on `self`.
    pub fn is_pin_call_on_self(&self, nodes: &Vec<Node>, call: &MethodCall) -> (answer: bool)
        requires
            self.wf(),
            call.resolved matches Some(f) ==> f < self.functions@.len(),
            call.receiver matches Some(r) ==> r < nodes@.len(),
        ensures
            answer == self.pin_call_on_self(nodes@, *call),
    {
        match (call.resolved, call.receiver) {
            (Some(f), Some(r)) => self.is_pin_function(f) && is_self_expr(nodes, r),
            _ => false,
        }
    }

    /// Finds the trait with the given name among the declarations of a module.
    fn find_declared_trait(&self, module: &ModuleDef, name: &str) -> (found: Option<usize>)
        requires
            self.module_ok(*module),
        ensures
            found == first_some(module.declarations@, self.trait_named(name@)),
    {
        let ghost pick = self.trait_named(name@);
        let mut k: usize = 0;
        while k < module.declarations.len()
            invariant
                k <= module.declarations@.len(),
                self.module_ok(*module),
                pick == self.trait_named(name@),
                first_some(module.declarations@.take(k as int), pick) is None,
            decreases module.declarations.len() - k,
        {
            proof {
                lemma_first_some_step(module.declarations@, pick, k as int);
            }
            if let Declaration::Trait(t) = module.declarations[k] {
                assert(module.declarations@[k as int] == Declaration::Trait(t));
                if same_text(self.traits[t].name.as_str(), name) {
                    proof {
                        lemma_first_some_prefix(module.declarations@, pick, k + 1);
                    }
                    return Some(t);
                }
            }
            k += 1;
        }
        assert(module.declarations@.take(k as int) =~= module.declarations@);
        None
    }

    /// Finds a marker trait, such as `Copy` or `Unpin`, by its name.
    pub fn find_marker_trait(&self, name: &str) -> (found: Option<usize>)
        requires
            self.wf(),
        ensures
            found == self.marker_trait(name@),
    {
        let ghost pick = self.marker_of_crate(name@);
        let mut k: usize = 0;
        while k < self.crates.len()
            invariant
                k <= self.crates@.len(),
                self.wf(),
                pick == self.marker_of_crate(name@),
                first_some(self.crates@.take(k as int), pick) is None,
            decreases self.crates.len() - k,
        {
            proof {
                lemma_first_some_step(self.crates@, pick, k as int);
                assert(self.crate_ok(self.crates@[k as int]));
            }
            let krate = &self.crates[k];
            if is_core_or_std(&krate.name) {
                if let Some(marker) = find_marker_module(&krate.modules) {
                    assert(self.module_ok(krate.modules@[marker as int]));
                    if let Some(t) = self.find_declared_trait(&krate.modules[marker], name) {
                        proof {
                            lemma_first_some_prefix(self.crates@, pick, k + 1);
                        }
                        return Some(t);
                    }
                }
            }
            k += 1;
        }
        assert(self.crates@.take(k as int) =~= self.crates@);
        None
    }

    /// Whether a bound of a `where` clause is a trait called `Unpin`.
    fn is_unpin_bound(&self, bound: &Option<TypeSyntax>) -> (answer: bool)
        requires
            self.type_ok(*bound),
        ensures
            answer == self.unpin_bound(*bound),
    {
        match bound {
            Some(ty) => match resolve_trait(ty) {
                Some(t) => same_text(self.traits[t].name.as_str(), "Unpin"),
                None => false,
            },
            None => false,
        }
    }

    /// Whether one of the bounds, if there are any, is a trait called `Unpin`.
    fn mentions_unpin(&self, bounds: &Option<Vec<Option<TypeSyntax>>>) -> (answer: bool)
        requires
            self.bounds_ok(*bounds),
        ensures
            answer == self.unpin_among(*bounds),
    {
        let list = match bounds {
            Some(list) => list,
            None => {
                return false;
            },
        };
        let mut k: usize = 0;
        while k < list.len()
            invariant
                *bounds == Some(*list),
                self.bounds_ok(*bounds),
                k <= list@.len(),
                forall|j: int| 0 <= j < k ==> !self.unpin_bound(#[trigger] list@[j]),
            decreases list.len() - k,
        {
            assert(self.type_ok(bounds->0@[k as int]));
            if self.is_unpin_bound(&list[k]) {
                assert(self.unpin_bound(bounds->0@[k as int]));
                return true;
            }
            k += 1;
        }
        false
    }

    /// Collects the types, as written, that an impl bounds by `Unpin`.
    pub fn collect_unpin_bounds(&self, item: &ImplItem) -> (bounded: Vec<String>)
        requires
            self.impl_bounds_ok(*item),
        ensures
            texts(bounded@) == self.unpin_bounded_types(*item),
    {
        let mut bounded: Vec<String> = Vec::new();
        let ghost empty = Seq::<Seq<char>>::empty();
        let ghost pick_param = self.unpin_param();
        let params = &item.type_params;
        assert(texts(bounded@) =~= distinct(params@.take(0).filter_map(pick_param)));
        let mut k: usize = 0;
        while k < params.len()
            invariant
                k <= params@.len(),
                params@ == item.type_params@,
                self.impl_bounds_ok(*item),
                empty == Seq::<Seq<char>>::empty(),
                pick_param == self.unpin_param(),
                texts(bounded@) == distinct(params@.take(k as int).filter_map(pick_param)),
            decreases params.len() - k,
        {
            let ghost before = params@.take(k as int).filter_map(pick_param);
            let param = &params[k];
            assert(self.bounds_ok(item.type_params@[k as int].bounds));
            proof {
                params@.lemma_filter_map_take_succ(pick_param, k as int);
            }
            if let Some(name) = &param.name {
                if self.mentions_unpin(&param.bounds) {
                    insert_string(&mut bounded, name.as_str());
                    proof {
                        let after = params@.take(k + 1).filter_map(pick_param);
                        assert(after =~= before.push(name@));
                        lemma_with_elements_push(empty, before, name@);
                    }
                }
            }
            k += 1;
        }
        assert(params@.take(k as int) =~= params@);
        let ghost from_params = params@.filter_map(pick_param);
        assert(from_params + empty =~= from_params);
        if let Some(predicates) = &item.where_predicates {
            let ghost pick = self.unpin_predicate();
            assert(predicates@.take(0).filter_map(pick) =~= empty);
            let mut k: usize = 0;
            while k < predicates.len()
                invariant
                    k <= predicates@.len(),
                    item.where_predicates == Some(*predicates),
                    self.impl_bounds_ok(*item),
                    empty == Seq::<Seq<char>>::empty(),
                    pick == self.unpin_predicate(),
                    texts(bounded@) == distinct(
                        from_params + predicates@.take(k as int).filter_map(pick),
                    ),
                decreases predicates.len() - k,
            {
                let ghost before = predicates@.take(k as int).filter_map(pick);
                let predicate = &predicates[k];
                assert(self.bounds_ok(item.where_predicates->0@[k as int].bounds));
                proof {
                    predicates@.lemma_filter_map_take_succ(pick, k as int);
                }
                if let Some(ty) = &predicate.ty {
                    if self.mentions_unpin(&predicate.bounds) {
                        insert_string(&mut bounded, ty.text.as_str());
                        proof {
                            let after = predicates@.take(k + 1).filter_map(pick);
                            assert(from_params + after =~= (from_params + before).push(ty.text@));
                            lemma_with_elements_push(empty, from_params + before, ty.text@);
                        }
                    }
                }
                k += 1;
            }
            assert(predicates@.take(k as int) =~= predicates@);
        }
        bounded
    }
}

} // verus!
