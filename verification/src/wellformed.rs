//! Well-formed workspaces: trees in document order, references that lead somewhere.

use vstd::prelude::*;

use crate::tree::{is_within, parent_ok, parents_ok};
use crate::workspace::{
    AdtDef, AssocItem, CrateDef, Declaration, FnContainer, FnSource, FunctionDef, ImplDef,
    ImplItem, ImplMember, ModuleDef, Node, NodeKind, Resolution, TypeKind, TypeSyntax, Workspace,
};

verus! {

/// A link from node `i` leads to a later node of the file.
pub open spec fn link_ok(link: Option<usize>, i: int, len: nat) -> bool {
    link matches Some(r) ==> i < r < len
}

/// All links of a list lead from node `i` to later nodes of the file.
pub open spec fn links_ok(links: Option<Vec<usize>>, i: int, len: nat) -> bool {
    links matches Some(v) ==> forall|k: int| 0 <= k < v@.len() ==> i < #[trigger] v@[k] < len
}

impl Workspace {
    /// The nodes of a file.
    pub open spec fn tree(self, file: int) -> Seq<Node> {
        self.files@[file].nodes@
    }

    /// A resolution leads to an entry of its table.
    pub open spec fn resolution_ok(self, resolution: Option<Resolution>) -> bool {
        match resolution {
            Some(Resolution::Adt(a)) => a < self.adts@.len(),
            Some(Resolution::Trait(t)) => t < self.traits@.len(),
            Some(Resolution::Function(f)) => f < self.functions@.len(),
            _ => true,
        }
    }

    /// The path of a type resolves to an entry of its table.
    pub open spec fn type_ok(self, ty: Option<TypeSyntax>) -> bool {
        ty matches Some(t) ==> (t.kind matches TypeKind::Path(Some(p)) ==> self.resolution_ok(
            p.resolution,
        ))
    }

    /// Bounds resolve to entries of their tables.
    pub open spec fn bounds_ok(self, bounds: Option<Vec<Option<TypeSyntax>>>) -> bool {
        bounds matches Some(list) ==> forall|k: int|
            0 <= k < list@.len() ==> self.type_ok(#[trigger] list@[k])
    }

    /// The bounds of an impl, on its parameters and in its `where` clause, resolve to entries of
    /// their tables.
    pub open spec fn impl_bounds_ok(self, item: ImplItem) -> bool {
        &&& forall|k: int|
            0 <= k < item.type_params@.len() ==> self.bounds_ok(
                (#[trigger] item.type_params@[k]).bounds,
            )
        &&& item.where_predicates matches Some(predicates) ==> forall|k: int|
            0 <= k < predicates@.len() ==> self.bounds_ok((#[trigger] predicates@[k]).bounds)
    }

    /// The links of an impl lead to functions of the file, its types to entries of the tables.
    pub open spec fn impl_ok(self, item: ImplItem, nodes: Seq<Node>) -> bool {
        &&& self.type_ok(item.trait_type)
        &&& self.type_ok(item.self_type)
        &&& self.impl_bounds_ok(item)
        &&& item.items matches Some(items) ==> forall|k: int|
            0 <= k < items@.len() ==> (#[trigger] items@[k] matches AssocItem::FnItem(f) ==> f
                < nodes.len() && nodes[f as int].kind is FnItem)
    }

    /// What node `i` refers to is there.
    pub open spec fn kind_ok(self, nodes: Seq<Node>, i: int) -> bool {
        let len = nodes.len();
        match nodes[i].kind {
            NodeKind::Impl(item) => self.impl_ok(item, nodes),
            NodeKind::FnItem(item) => link_ok(item.body, i, len) && self.type_ok(
                item.self_param_type,
            ),
            NodeKind::MethodCall(call) => link_ok(call.receiver, i, len) && links_ok(
                call.args,
                i,
                len,
            ) && (call.resolved matches Some(f) ==> f < self.functions@.len()),
            NodeKind::Call(call) => link_ok(call.callee, i, len) && links_ok(call.args, i, len),
            NodeKind::Field(access) => link_ok(access.expr, i, len),
            NodeKind::PathExpr(path) => path matches Some(p) ==> self.resolution_ok(p.resolution),
            NodeKind::RefExpr { mutable, expr } => link_ok(expr, i, len),
            NodeKind::Closure { body } => link_ok(body, i, len),
            NodeKind::ParenExpr { expr } => link_ok(expr, i, len),
            NodeKind::BinExpr { op, lhs } => link_ok(lhs, i, len),
            _ => true,
        }
    }

    /// A node is in its place and what it refers to is there.
    pub open spec fn node_ok(self, nodes: Seq<Node>, i: int) -> bool {
        parent_ok(nodes, i) && self.kind_ok(nodes, i)
    }

    /// The nodes of a file form a tree in document order.
    pub open spec fn tree_ok(self, nodes: Seq<Node>) -> bool {
        forall|i: int| 0 <= i < nodes.len() ==> #[trigger] self.node_ok(nodes, i)
    }

    /// The source of a function is a function of a file.
    pub open spec fn source_ok(self, source: FnSource) -> bool {
        &&& source.file < self.files@.len()
        &&& source.node < self.tree(source.file as int).len()
        &&& self.tree(source.file as int)[source.node as int].kind is FnItem
    }

    /// The functions of an impl have their sources in the files.
    pub open spec fn impl_def_ok(self, imp: ImplDef) -> bool {
        forall|k: int|
            0 <= k < imp.items@.len() ==> (#[trigger] imp.items@[k] matches ImplMember::Function(
                Some(source),
            ) ==> self.source_ok(source))
    }

    /// The impls of a type have their sources in the files.
    pub open spec fn adt_ok(self, adt: AdtDef) -> bool {
        forall|k: int| 0 <= k < adt.impls@.len() ==> self.impl_def_ok(#[trigger] adt.impls@[k])
    }

    /// The impl that a function is in is for a known type.
    pub open spec fn function_ok(self, function: FunctionDef) -> bool {
        function.container matches FnContainer::Impl(Some(a)) ==> a < self.adts@.len()
    }

    /// The traits that a module declares are known.
    pub open spec fn module_ok(self, module: ModuleDef) -> bool {
        forall|k: int|
            0 <= k < module.declarations@.len() ==> (
            #[trigger] module.declarations@[k] matches Declaration::Trait(t) ==> t
                < self.traits@.len())
    }

    /// The traits that a crate declares are known.
    pub open spec fn crate_ok(self, krate: CrateDef) -> bool {
        forall|k: int| 0 <= k < krate.modules@.len() ==> self.module_ok(#[trigger] krate.modules@[k])
    }

    /// Every file is a tree in document order, and every reference leads to an entry of its
    /// table.
    pub open spec fn wf(self) -> bool {
        &&& forall|f: int| 0 <= f < self.files@.len() ==> self.tree_ok(#[trigger] self.tree(f))
        &&& forall|a: int| 0 <= a < self.adts@.len() ==> self.adt_ok(#[trigger] self.adts@[a])
        &&& forall|f: int|
            0 <= f < self.functions@.len() ==> self.function_ok(#[trigger] self.functions@[f])
        &&& forall|c: int| 0 <= c < self.crates@.len() ==> self.crate_ok(#[trigger] self.crates@[c])
    }
}

/// A well-formed tree has its parents in place.
pub proof fn lemma_parents_ok(workspace: Workspace, file: int)
    requires
        workspace.wf(),
        0 <= file < workspace.files@.len(),
    ensures
        parents_ok(workspace.tree(file)),
{
    let nodes = workspace.tree(file);
    assert forall|i: int| 0 <= i < nodes.len() implies #[trigger] parent_ok(nodes, i) by {
        assert(workspace.node_ok(nodes, i));
    }
}

fn is_link_ok(link: Option<usize>, i: usize, len: usize) -> (ok: bool)
    ensures
        ok == link_ok(link, i as int, len as nat),
{
    match link {
        Some(r) => i < r && r < len,
        None => true,
    }
}

fn are_links_ok(links: &Option<Vec<usize>>, i: usize, len: usize) -> (ok: bool)
    ensures
        ok == links_ok(*links, i as int, len as nat),
{
    match links {
        Some(list) => {
            let mut k: usize = 0;
            while k < list.len()
                invariant
                    *links == Some(*list),
                    k <= list@.len(),
                    forall|j: int| 0 <= j < k ==> i < #[trigger] list@[j] < len,
                decreases list.len() - k,
            {
                if !(i < list[k] && list[k] < len) {
                    assert(!(i < links->0@[k as int] < len));
                    return false;
                }
                k += 1;
            }
            true
        },
        None => true,
    }
}

impl Workspace {
    fn is_resolution_ok(&self, resolution: Option<Resolution>) -> (ok: bool)
        ensures
            ok == self.resolution_ok(resolution),
    {
        match resolution {
            Some(Resolution::Adt(a)) => a < self.adts.len(),
            Some(Resolution::Trait(t)) => t < self.traits.len(),
            Some(Resolution::Function(f)) => f < self.functions.len(),
            _ => true,
        }
    }

    fn is_type_ok(&self, ty: &Option<TypeSyntax>) -> (ok: bool)
        ensures
            ok == self.type_ok(*ty),
    {
        match ty {
            Some(t) => match &t.kind {
                TypeKind::Path(Some(p)) => self.is_resolution_ok(p.resolution),
                _ => true,
            },
            None => true,
        }
    }

    fn are_bounds_ok(&self, bounds: &Option<Vec<Option<TypeSyntax>>>) -> (ok: bool)
        ensures
            ok == self.bounds_ok(*bounds),
    {
        match bounds {
            Some(list) => {
                let mut k: usize = 0;
                while k < list.len()
                    invariant
                        *bounds == Some(*list),
                        k <= list@.len(),
                        forall|j: int| 0 <= j < k ==> self.type_ok(#[trigger] list@[j]),
                    decreases list.len() - k,
                {
                    if !self.is_type_ok(&list[k]) {
                        assert(!self.type_ok(bounds->0@[k as int]));
                        return false;
                    }
                    k += 1;
                }
                true
            },
            None => true,
        }
    }

    fn are_impl_bounds_ok(&self, item: &ImplItem) -> (ok: bool)
        ensures
            ok == self.impl_bounds_ok(*item),
    {
        let mut k: usize = 0;
        while k < item.type_params.len()
            invariant
                k <= item.type_params@.len(),
                forall|j: int|
                    0 <= j < k ==> self.bounds_ok((#[trigger] item.type_params@[j]).bounds),
            decreases item.type_params.len() - k,
        {
            if !self.are_bounds_ok(&item.type_params[k].bounds) {
                assert(!self.bounds_ok(item.type_params@[k as int].bounds));
                return false;
            }
            k += 1;
        }
        if let Some(predicates) = &item.where_predicates {
            let mut k: usize = 0;
            while k < predicates.len()
                invariant
                    item.where_predicates == Some(*predicates),
                    k <= predicates@.len(),
                    forall|j: int|
                        0 <= j < k ==> self.bounds_ok((#[trigger] predicates@[j]).bounds),
                decreases predicates.len() - k,
            {
                if !self.are_bounds_ok(&predicates[k].bounds) {
                    assert(!self.bounds_ok(item.where_predicates->0@[k as int].bounds));
                    return false;
                }
                k += 1;
            }
        }
        true
    }

    fn is_impl_ok(&self, item: &ImplItem, nodes: &Vec<Node>) -> (ok: bool)
        ensures
            ok == self.impl_ok(*item, nodes@),
    {
        if !self.is_type_ok(&item.trait_type) || !self.is_type_ok(&item.self_type)
            || !self.are_impl_bounds_ok(item) {
            return false;
        }
        if let Some(items) = &item.items {
            let mut k: usize = 0;
            while k < items.len()
                invariant
                    item.items == Some(*items),
                    k <= items@.len(),
                    forall|j: int|
                        0 <= j < k ==> (#[trigger] items@[j] matches AssocItem::FnItem(f) ==> f
                            < nodes@.len() && nodes@[f as int].kind is FnItem),
                decreases items.len() - k,
            {
                if let AssocItem::FnItem(f) = items[k] {
                    if f >= nodes.len() {
                        return false;
                    }
                    match &nodes[f].kind {
                        NodeKind::FnItem(_) => {},
                        _ => {
                            return false;
                        },
                    }
                }
                k += 1;
            }
        }
        true
    }

    fn is_kind_ok(&self, nodes: &Vec<Node>, i: usize) -> (ok: bool)
        requires
            i < nodes@.len(),
        ensures
            ok == self.kind_ok(nodes@, i as int),
    {
        let len: usize = nodes.len();
        match &nodes[i].kind {
            NodeKind::Impl(item) => self.is_impl_ok(item, nodes),
            NodeKind::FnItem(item) => is_link_ok(item.body, i, len) && self.is_type_ok(
                &item.self_param_type,
            ),
            NodeKind::MethodCall(call) => is_link_ok(call.receiver, i, len) && are_links_ok(
                &call.args,
                i,
                len,
            ) && (match call.resolved {
                Some(f) => f < self.functions.len(),
                None => true,
            }),
            NodeKind::Call(call) => is_link_ok(call.callee, i, len) && are_links_ok(
                &call.args,
                i,
                len,
            ),
            NodeKind::Field(access) => is_link_ok(access.expr, i, len),
            NodeKind::PathExpr(path) => match path {
                Some(p) => self.is_resolution_ok(p.resolution),
                None => true,
            },
            NodeKind::RefExpr { mutable: _, expr } => is_link_ok(*expr, i, len),
            NodeKind::Closure { body } => is_link_ok(*body, i, len),
            NodeKind::ParenExpr { expr } => is_link_ok(*expr, i, len),
            NodeKind::BinExpr { op: _, lhs } => is_link_ok(*lhs, i, len),
            _ => true,
        }
    }

    fn is_parent_ok(nodes: &Vec<Node>, i: usize) -> (ok: bool)
        requires
            i < nodes@.len(),
            forall|j: int| 0 <= j < i ==> #[trigger] parent_ok(nodes@, j),
        ensures
            ok == parent_ok(nodes@, i as int),
    {
        match nodes[i].parent {
            Some(p) => i > 0 && p < i && is_within(nodes, i - 1, p),
            None => i == 0,
        }
    }

    fn is_tree_ok(&self, nodes: &Vec<Node>) -> (ok: bool)
        ensures
            ok == self.tree_ok(nodes@),
    {
        let mut i: usize = 0;
        while i < nodes.len()
            invariant
                i <= nodes@.len(),
                forall|j: int| 0 <= j < i ==> #[trigger] self.node_ok(nodes@, j),
            decreases nodes.len() - i,
        {
            assert forall|j: int| 0 <= j < i implies #[trigger] parent_ok(nodes@, j) by {
                assert(self.node_ok(nodes@, j));
            }
            if !Self::is_parent_ok(nodes, i) || !self.is_kind_ok(nodes, i) {
                assert(!self.node_ok(nodes@, i as int));
                return false;
            }
            i += 1;
        }
        true
    }

    fn is_impl_def_ok(&self, imp: &ImplDef) -> (ok: bool)
        ensures
            ok == self.impl_def_ok(*imp),
    {
        let mut k: usize = 0;
        while k < imp.items.len()
            invariant
                k <= imp.items@.len(),
                forall|j: int|
                    0 <= j < k ==> (#[trigger] imp.items@[j] matches ImplMember::Function(
                        Some(source),
                    ) ==> self.source_ok(source)),
            decreases imp.items.len() - k,
        {
            if let ImplMember::Function(Some(source)) = imp.items[k] {
                if source.file >= self.files.len() {
                    return false;
                }
                let nodes: &Vec<Node> = &self.files[source.file].nodes;
                if source.node >= nodes.len() {
                    return false;
                }
                match &nodes[source.node].kind {
                    NodeKind::FnItem(_) => {},
                    _ => {
                        return false;
                    },
                }
            }
            k += 1;
        }
        true
    }

    fn is_adt_ok(&self, adt: &AdtDef) -> (ok: bool)
        ensures
            ok == self.adt_ok(*adt),
    {
        let mut k: usize = 0;
        while k < adt.impls.len()
            invariant
                k <= adt.impls@.len(),
                forall|j: int| 0 <= j < k ==> self.impl_def_ok(#[trigger] adt.impls@[j]),
            decreases adt.impls.len() - k,
        {
            if !self.is_impl_def_ok(&adt.impls[k]) {
                return false;
            }
            k += 1;
        }
        true
    }

    fn is_module_ok(&self, module: &ModuleDef) -> (ok: bool)
        ensures
            ok == self.module_ok(*module),
    {
        let mut k: usize = 0;
        while k < module.declarations.len()
            invariant
                k <= module.declarations@.len(),
                forall|j: int|
                    0 <= j < k ==> (#[trigger] module.declarations@[j] matches Declaration::Trait(
                        t,
                    ) ==> t < self.traits@.len()),
            decreases module.declarations.len() - k,
        {
            if let Declaration::Trait(t) = module.declarations[k] {
                if t >= self.traits.len() {
                    return false;
                }
            }
            k += 1;
        }
        true
    }

    fn is_crate_ok(&self, krate: &CrateDef) -> (ok: bool)
        ensures
            ok == self.crate_ok(*krate),
    {
        let mut k: usize = 0;
        while k < krate.modules.len()
            invariant
                k <= krate.modules@.len(),
                forall|j: int| 0 <= j < k ==> self.module_ok(#[trigger] krate.modules@[j]),
            decreases krate.modules.len() - k,
        {
            if !self.is_module_ok(&krate.modules[k]) {
                return false;
            }
            k += 1;
        }
        true
    }

    /// Whether the workspace is well-formed; the checks ask for that.
    pub fn is_well_formed(&self) -> (ok: bool)
        ensures
            ok == self.wf(),
    {
        let mut k: usize = 0;
        while k < self.files.len()
            invariant
                k <= self.files@.len(),
                forall|j: int| 0 <= j < k ==> self.tree_ok(#[trigger] self.tree(j)),
            decreases self.files.len() - k,
        {
            if !self.is_tree_ok(&self.files[k].nodes) {
                assert(!self.tree_ok(self.tree(k as int)));
                return false;
            }
            k += 1;
        }
        k = 0;
        while k < self.adts.len()
            invariant
                k <= self.adts@.len(),
                forall|j: int| 0 <= j < k ==> self.adt_ok(#[trigger] self.adts@[j]),
            decreases self.adts.len() - k,
        {
            if !self.is_adt_ok(&self.adts[k]) {
                return false;
            }
            k += 1;
        }
        k = 0;
        while k < self.functions.len()
            invariant
                k <= self.functions@.len(),
                forall|j: int| 0 <= j < k ==> self.function_ok(#[trigger] self.functions@[j]),
            decreases self.functions.len() - k,
        {
            if let FnContainer::Impl(Some(a)) = self.functions[k].container {
                if a >= self.adts.len() {
                    assert(!self.function_ok(self.functions@[k as int]));
                    return false;
                }
            }
            k += 1;
        }
        k = 0;
        while k < self.crates.len()
            invariant
                k <= self.crates@.len(),
                forall|j: int| 0 <= j < k ==> self.crate_ok(#[trigger] self.crates@[j]),
            decreases self.crates.len() - k,
        {
            if !self.is_crate_ok(&self.crates[k]) {
                return false;
            }
            k += 1;
        }
        true
    }
}

} // verus!
