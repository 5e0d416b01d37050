//! Text helpers, document order and well-formed workspaces.

use pin_diagnostics::text::{
    contains_string, contains_text, insert_string, is_text, join, same_text,
};
use pin_diagnostics::tree::{descendants, is_within};
use pin_diagnostics::workspace::{
    AdtDef, AdtKind, AssocItem, Call, CallSite, CrateDef, Declaration, FieldAccess, FileRange,
    FnContainer, FnItem, FnSource, FunctionDef, ImplDef, ImplItem, ImplMember, MethodCall,
    ModuleDef, Node, NodeKind, Path, Resolution, SourceFile, TextRange, TraitDef, TypeKind,
    TypeParam, TypeSyntax, WherePredicate, Workspace,
};

fn strings(list: &[&str]) -> Vec<String> {
    list.iter().map(|s| s.to_string()).collect()
}

#[test]
fn texts_are_compared_by_their_characters() {
    assert!(same_text("", ""));
    assert!(same_text("pin", "pin"));
    assert!(same_text("größe", "größe"));
    assert!(!same_text("pin", "pins"));
    assert!(!same_text("pin", "pit"));
    assert!(!same_text("größe", "grösse"));
    assert!(is_text(&Some("core".to_string()), "core"));
    assert!(!is_text(&Some("core".to_string()), "std"));
    assert!(!is_text(&None, ""));
}

#[test]
fn texts_are_searched() {
    assert!(contains_text("Option<PhantomPinned>", "PhantomPinned"));
    assert!(contains_text("PhantomPinned", "PhantomPinned"));
    assert!(contains_text("größe", "ße"));
    assert!(contains_text("abc", ""));
    assert!(contains_text("", ""));
    assert!(contains_text("aab", "ab"));
    assert!(!contains_text("PhantomPin", "PhantomPinned"));
    assert!(!contains_text("Phantom Pinned", "PhantomPinned"));
    assert!(!contains_text("", "a"));
}

#[test]
fn strings_are_joined() {
    assert_eq!(join(&vec![], ", "), "");
    assert_eq!(join(&strings(&["a"]), ", "), "a");
    assert_eq!(join(&strings(&["a", "", "b"]), ", "), "a, , b");
}

#[test]
fn names_are_kept_once_in_order() {
    let mut list = vec![];
    for name in ["b", "a", "b", "c", "a"] {
        insert_string(&mut list, name);
    }
    assert_eq!(list, strings(&["b", "a", "c"]));
    assert!(contains_string(&list, "c"));
    assert!(!contains_string(&list, "d"));
}

fn range() -> TextRange {
    TextRange { start: 0, end: 0 }
}

fn node(parent: Option<usize>, kind: NodeKind) -> Node {
    Node { range: range(), parent, ty: None, kind }
}

/// Nodes of no particular kind with the given parents.
fn tree(parents: &[Option<usize>]) -> Vec<Node> {
    parents.iter().map(|p| node(*p, NodeKind::Other)).collect()
}

fn workspace(nodes: Vec<Node>) -> Workspace {
    Workspace {
        files: vec![SourceFile { file_id: 7, nodes }],
        crates: vec![],
        adts: vec![],
        functions: vec![],
        traits: vec![],
    }
}

fn is_tree(parents: &[Option<usize>]) -> bool {
    workspace(tree(parents)).is_well_formed()
}

#[test]
fn nodes_below_a_node_are_listed_in_document_order() {
    let parents = [None, Some(0), Some(1), Some(1), Some(3), Some(0), Some(5)];
    assert!(is_tree(&parents));
    let nodes = tree(&parents);
    assert_eq!(descendants(&nodes, 0), vec![0, 1, 2, 3, 4, 5, 6]);
    assert_eq!(descendants(&nodes, 1), vec![1, 2, 3, 4]);
    assert_eq!(descendants(&nodes, 3), vec![3, 4]);
    assert_eq!(descendants(&nodes, 4), vec![4]);
    assert_eq!(descendants(&nodes, 5), vec![5, 6]);
    assert!(is_within(&nodes, 4, 1));
    assert!(is_within(&nodes, 4, 4));
    assert!(!is_within(&nodes, 4, 2));
    assert!(!is_within(&nodes, 1, 4));
}

#[test]
fn files_are_trees_in_document_order() {
    assert!(is_tree(&[]));
    assert!(is_tree(&[None]));
    assert!(is_tree(&[None, Some(0), Some(1), Some(0)]));
    assert!(!is_tree(&[Some(0)]));
    assert!(!is_tree(&[None, None]));
    assert!(!is_tree(&[None, Some(1)]));
    assert!(!is_tree(&[None, Some(2), Some(0)]));
    assert!(!is_tree(&[None, Some(0), Some(0), Some(1)]));
}

fn site() -> CallSite {
    CallSite {
        expansions: vec![],
        display_range: FileRange { file_id: 7, range: range() },
    }
}

fn path_to(resolution: Resolution) -> Path {
    Path { range: range(), qualified: false, segment: None, resolution: Some(resolution) }
}

fn type_to(resolution: Resolution) -> Option<TypeSyntax> {
    Some(TypeSyntax {
        text: String::new(),
        kind: TypeKind::Path(Some(path_to(resolution))),
    })
}

/// Whether a file is well-formed that consists of a root, a node of the given kind and two
/// nodes below that one.
fn accepts(kind: NodeKind) -> bool {
    let mut nodes = tree(&[None, Some(0), Some(1), Some(1)]);
    nodes[1].kind = kind;
    workspace(nodes).is_well_formed()
}

#[test]
fn links_lead_to_later_nodes() {
    let field = |expr| NodeKind::Field(FieldAccess { expr, name: None });
    assert!(accepts(field(None)));
    assert!(accepts(field(Some(2))));
    assert!(!accepts(field(Some(1))));
    assert!(!accepts(field(Some(4))));
    assert!(accepts(NodeKind::RefExpr { mutable: true, expr: Some(2) }));
    assert!(!accepts(NodeKind::RefExpr { mutable: true, expr: Some(0) }));
    assert!(accepts(NodeKind::Closure { body: Some(2) }));
    assert!(!accepts(NodeKind::Closure { body: Some(9) }));
    assert!(accepts(NodeKind::ParenExpr { expr: Some(2) }));
    assert!(!accepts(NodeKind::ParenExpr { expr: Some(1) }));
    assert!(accepts(NodeKind::BinExpr { op: None, lhs: Some(2) }));
    assert!(!accepts(NodeKind::BinExpr { op: None, lhs: Some(1) }));
    let call = |callee, args| NodeKind::Call(Call { callee, args, site: site() });
    assert!(accepts(call(Some(2), Some(vec![3]))));
    assert!(!accepts(call(Some(4), None)));
    assert!(!accepts(call(Some(2), Some(vec![3, 4]))));
    let method = |receiver, args, resolved| {
        NodeKind::MethodCall(MethodCall { name: None, receiver, args, resolved, site: site() })
    };
    assert!(accepts(method(Some(2), Some(vec![3]), None)));
    assert!(!accepts(method(Some(0), None, None)));
    assert!(!accepts(method(Some(2), Some(vec![0]), None)));
    assert!(!accepts(method(Some(2), None, Some(0))));
    let function = |body, self_param_type| {
        NodeKind::FnItem(FnItem { name: None, is_unsafe: false, self_param_type, body })
    };
    assert!(accepts(function(Some(2), None)));
    assert!(!accepts(function(Some(1), None)));
    assert!(!accepts(function(Some(2), type_to(Resolution::Adt(0)))));
}

#[test]
fn paths_lead_to_entries_of_the_tables() {
    assert!(accepts(NodeKind::PathExpr(None)));
    assert!(accepts(NodeKind::PathExpr(Some(path_to(Resolution::TypeParam)))));
    assert!(accepts(NodeKind::PathExpr(Some(path_to(Resolution::Constructor)))));
    assert!(accepts(NodeKind::PathExpr(Some(path_to(Resolution::Other)))));
    assert!(!accepts(NodeKind::PathExpr(Some(path_to(Resolution::Adt(0))))));
    assert!(!accepts(NodeKind::PathExpr(Some(path_to(Resolution::Trait(0))))));
    assert!(!accepts(NodeKind::PathExpr(Some(path_to(Resolution::Function(0))))));
}

fn impl_item() -> ImplItem {
    ImplItem {
        impl_token: None,
        type_params: vec![],
        trait_type: None,
        self_type: None,
        where_predicates: None,
        items: None,
    }
}

#[test]
fn impls_refer_to_functions_and_known_types() {
    assert!(accepts(NodeKind::Impl(impl_item())));
    let with_items = |items| NodeKind::Impl(ImplItem { items: Some(items), ..impl_item() });
    assert!(accepts(with_items(vec![AssocItem::Other])));
    assert!(!accepts(with_items(vec![AssocItem::Other, AssocItem::FnItem(2)])));
    assert!(!accepts(with_items(vec![AssocItem::FnItem(9)])));
    let unknown = || type_to(Resolution::Trait(3));
    assert!(!accepts(NodeKind::Impl(ImplItem { trait_type: unknown(), ..impl_item() })));
    assert!(!accepts(NodeKind::Impl(ImplItem { self_type: unknown(), ..impl_item() })));
    let with_bounds = |bounds| {
        let predicate = WherePredicate { ty: None, bounds: Some(bounds) };
        NodeKind::Impl(ImplItem { where_predicates: Some(vec![predicate]), ..impl_item() })
    };
    assert!(accepts(with_bounds(vec![None, type_to(Resolution::Other)])));
    assert!(!accepts(with_bounds(vec![None, unknown()])));
    let with_params = |bounds| {
        let param = TypeParam { name: None, bounds };
        NodeKind::Impl(ImplItem { type_params: vec![param], ..impl_item() })
    };
    assert!(accepts(with_params(None)));
    assert!(accepts(with_params(Some(vec![None, type_to(Resolution::Other)]))));
    assert!(!accepts(with_params(Some(vec![unknown()]))));

    let mut nodes = tree(&[None, Some(0), Some(1)]);
    nodes[1].kind = with_items(vec![AssocItem::FnItem(2)]);
    nodes[2].kind = NodeKind::FnItem(FnItem {
        name: None,
        is_unsafe: false,
        self_param_type: None,
        body: None,
    });
    assert!(workspace(nodes).is_well_formed());
}

fn adt(items: Vec<ImplMember>) -> AdtDef {
    AdtDef {
        kind: AdtKind::Struct,
        name: String::new(),
        module_name: None,
        crate_name: None,
        record_fields: None,
        fields: vec![],
        impls: vec![ImplDef { is_trait_impl: false, items }],
    }
}

#[test]
fn tables_refer_to_each_other() {
    let accepts_adt = |items: Vec<ImplMember>| {
        let mut w = workspace(tree(&[None]));
        w.adts.push(adt(items));
        w.is_well_formed()
    };
    let source = |file, node| ImplMember::Function(Some(FnSource { file, node }));
    assert!(accepts_adt(vec![ImplMember::Other, ImplMember::Function(None)]));
    assert!(!accepts_adt(vec![source(1, 0)]));
    assert!(!accepts_adt(vec![source(0, 1)]));
    assert!(!accepts_adt(vec![source(0, 0)]));

    let accepts_function = |container| {
        let mut w = workspace(vec![]);
        w.adts.push(adt(vec![]));
        w.functions.push(FunctionDef {
            name: String::new(),
            module_name: None,
            crate_name: None,
            container,
        });
        w.is_well_formed()
    };
    assert!(accepts_function(FnContainer::Module));
    assert!(accepts_function(FnContainer::Trait));
    assert!(accepts_function(FnContainer::Impl(None)));
    assert!(accepts_function(FnContainer::Impl(Some(0))));
    assert!(!accepts_function(FnContainer::Impl(Some(1))));

    let accepts_declaration = |declaration| {
        let mut w = workspace(vec![]);
        w.traits.push(TraitDef { name: String::new(), crate_name: None });
        let module = ModuleDef { name: None, declarations: vec![declaration] };
        w.crates.push(CrateDef { name: None, modules: vec![module] });
        w.is_well_formed()
    };
    assert!(accepts_declaration(Declaration::Other));
    assert!(accepts_declaration(Declaration::Trait(0)));
    assert!(!accepts_declaration(Declaration::Trait(1)));
}
