//! The checks on small workspaces that are written out by hand.

use pin_diagnostics::diagnostic::{Diagnostic, FixKind, Severity};
use pin_diagnostics::pin_drop_analysis::{
    classify_field_use_context, DropVerdict, FieldUseContext, MovePatternKind,
};
use pin_diagnostics::workspace::{
    AdtDef, AdtKind, AssocItem, BinaryOp, Call, CallSite, CrateDef, Declaration, Expansion,
    FieldAccess, FieldDef, FileRange, FnContainer, FnItem, FnSource, FunctionDef, GenericArg, ImplDef, ImplItem,
    ImplMember, MethodCall, ModuleDef, Node, NodeKind, Path, PathSegment, RecordField, Resolution,
    SourceFile, TextRange, TraitDef, TypeInfo, TypeKind, TypeParam, TypeSyntax, WherePredicate,
    Workspace,
};

// ---------------------------------------------------------------------------
// Positions in the tables of every workspace below
// ---------------------------------------------------------------------------

const PIN: usize = 0;
const FOO: usize = 1;

const MAP_UNCHECKED_MUT: usize = 0;
const GET_UNCHECKED_MUT: usize = 1;
const PIN_NEW: usize = 2;
const PIN_NEW_UNCHECKED: usize = 3;
const MEM_REPLACE: usize = 4;
const MEM_SWAP: usize = 5;
const MEM_TAKE: usize = 6;
const PTR_READ: usize = 7;
const OBSERVE: usize = 8;
const STRING_NEW: usize = 9;
const STRING_CLEAR: usize = 10;

const COPY: usize = 0;
const UNPIN: usize = 1;
const DROP: usize = 2;

// ---------------------------------------------------------------------------
// Source files
// ---------------------------------------------------------------------------

/// An expression or statement to be written into a file.
enum E {
    Name(&'static str),
    Lit(&'static str),
    Function(&'static str, Option<usize>),
    Constructor(&'static str),
    Field(Box<E>, &'static str),
    Ref(Box<E>),
    RefMut(Box<E>),
    Method(Box<E>, &'static str, Option<usize>, Vec<E>),
    Call(Box<E>, Vec<E>),
    Closure(&'static str, Box<E>),
    Let(&'static str, Box<E>),
    Assign(Box<E>, Box<E>),
    Equals(Box<E>, Box<E>),
    Paren(Box<E>),
    Tuple(Vec<E>),
    Return(Box<E>),
    Record(&'static str, &'static str, Box<E>),
    Unsafe(Box<E>),
    Nested(bool, Vec<E>),
    Typed(&'static str, Vec<usize>, Box<E>),
    /// With the traits of the type and those of the type that it points to.
    Pointing(&'static str, Vec<usize>, Vec<usize>, Box<E>),
    /// With the crates that define the macros, and those that the macro calls stand in.
    Expanded(Vec<(Option<&'static str>, Option<&'static str>)>, Box<E>),
}

fn this() -> E {
    E::Name("self")
}

fn self_dot(field: &'static str) -> E {
    E::Field(Box::new(this()), field)
}

fn of(e: E, field: &'static str) -> E {
    E::Field(Box::new(e), field)
}

fn by_ref(e: E) -> E {
    E::Ref(Box::new(e))
}

fn by_mut(e: E) -> E {
    E::RefMut(Box::new(e))
}

fn paren(e: E) -> E {
    E::Paren(Box::new(e))
}

fn bind(pattern: &'static str, e: E) -> E {
    E::Let(pattern, Box::new(e))
}

fn assign(place: E, value: E) -> E {
    E::Assign(Box::new(place), Box::new(value))
}

fn block_unsafe(e: E) -> E {
    E::Unsafe(Box::new(e))
}

fn call(path: &'static str, function: usize, args: Vec<E>) -> E {
    E::Call(Box::new(E::Function(path, Some(function))), args)
}

/// `Some(<e>)`
fn some_of(e: E) -> E {
    E::Call(Box::new(E::Constructor("Some")), vec![e])
}

fn string_new() -> E {
    call("String::new", STRING_NEW, vec![])
}

/// `self.map_unchecked_mut(|s| &mut <place>)`
fn map_to(place: E) -> E {
    let closure = E::Closure("s", Box::new(by_mut(place)));
    E::Method(Box::new(this()), "map_unchecked_mut", Some(MAP_UNCHECKED_MUT), vec![closure])
}

/// `self.map_unchecked_mut(|s| &mut s.<field>)`
fn map(field: &'static str) -> E {
    map_to(of(E::Name("s"), field))
}

/// `self.get_unchecked_mut()`
fn get() -> E {
    E::Method(Box::new(this()), "get_unchecked_mut", Some(GET_UNCHECKED_MUT), vec![])
}

/// The type of the `self` parameter of a method.
enum Receiver {
    /// `self: Pin<&mut Self>`
    PinMutSelf,
    /// `self: Pin<&Self>`
    PinRefSelf,
    /// `&mut self`
    RefMut,
}

struct Method {
    name: Option<&'static str>,
    receiver: Receiver,
    body: Option<Vec<E>>,
}

fn pinned(name: &'static str, body: Vec<E>) -> Method {
    Method { name: Some(name), receiver: Receiver::PinMutSelf, body: Some(body) }
}

fn drop_fn(body: Vec<E>) -> Method {
    Method { name: Some("drop"), receiver: Receiver::RefMut, body: Some(body) }
}

/// The parts of an impl block.
struct Impl {
    params: Vec<TypeParam>,
    implemented: Option<(&'static str, usize)>,
    bounds: Option<Vec<WherePredicate>>,
    keyword: bool,
    methods: Option<Vec<Method>>,
}

fn inherent(methods: Vec<Method>) -> Impl {
    let methods = Some(methods);
    Impl { params: vec![], implemented: None, bounds: None, keyword: true, methods }
}

fn of_drop(methods: Vec<Method>) -> Impl {
    Impl { implemented: Some(("Drop", DROP)), ..inherent(methods) }
}

fn of_unpin(bounds: Option<Vec<WherePredicate>>) -> Impl {
    Impl { implemented: Some(("Unpin", UNPIN)), bounds, ..inherent(vec![]) }
}

fn type_path(text: &str, resolution: Option<Resolution>) -> TypeSyntax {
    TypeSyntax {
        text: text.to_string(),
        kind: TypeKind::Path(Some(Path {
            range: TextRange { start: 0, end: 0 },
            qualified: false,
            segment: Some(PathSegment { name: Some(text.to_string()), generic_args: None }),
            resolution,
        })),
    }
}

fn reference(mutable: bool, inner: TypeSyntax) -> TypeSyntax {
    let text = format!("&{}{}", if mutable { "mut " } else { "" }, inner.text);
    TypeSyntax { text, kind: TypeKind::Ref { mutable, inner: Some(Box::new(inner)) } }
}

fn pin_of(inner: TypeSyntax) -> TypeSyntax {
    TypeSyntax {
        text: format!("Pin<{}>", inner.text),
        kind: TypeKind::Path(Some(Path {
            range: TextRange { start: 0, end: 0 },
            qualified: false,
            segment: Some(PathSegment {
                name: Some("Pin".to_string()),
                generic_args: Some(vec![GenericArg::Other, GenericArg::Type(Some(inner))]),
            }),
            resolution: Some(Resolution::Adt(PIN)),
        })),
    }
}

fn type_param(name: &str) -> TypeSyntax {
    type_path(name, Some(Resolution::TypeParam))
}

fn bounded(ty: TypeSyntax, bounds: Vec<Option<TypeSyntax>>) -> WherePredicate {
    WherePredicate { ty: Some(ty), bounds: Some(bounds) }
}

fn param(name: &str, bounds: Option<Vec<Option<TypeSyntax>>>) -> TypeParam {
    TypeParam { name: some(name), bounds }
}

fn unpin_type() -> Option<TypeSyntax> {
    Some(type_path("Unpin", Some(Resolution::Trait(UNPIN))))
}

/// A file that is being written: its text and its nodes.
struct File {
    file_id: u32,
    text: String,
    nodes: Vec<Node>,
    impls: Vec<ImplDef>,
}

impl File {
    fn new(file_id: u32) -> File {
        let mut file = File { file_id, text: String::new(), nodes: vec![], impls: vec![] };
        file.open(None);
        file
    }

    fn put(&mut self, text: &str) {
        self.text.push_str(text);
    }

    fn open(&mut self, parent: Option<usize>) -> usize {
        let start = self.text.len() as u32;
        self.nodes.push(Node {
            range: TextRange { start, end: start },
            parent,
            ty: None,
            kind: NodeKind::Other,
        });
        self.nodes.len() - 1
    }

    fn close(&mut self, n: usize, kind: NodeKind) -> usize {
        self.nodes[n].range.end = self.text.len() as u32;
        self.nodes[n].kind = kind;
        n
    }

    fn site(&self, n: usize) -> CallSite {
        let range = TextRange { start: self.nodes[n].range.start, end: self.text.len() as u32 };
        CallSite {
            expansions: vec![],
            display_range: FileRange { file_id: self.file_id, range },
        }
    }

    fn args(&mut self, parent: usize, args: Vec<E>) -> Vec<usize> {
        let list = self.open(Some(parent));
        self.put("(");
        let mut found = vec![];
        for (i, arg) in args.into_iter().enumerate() {
            if i > 0 {
                self.put(", ");
            }
            found.push(self.expr(list, arg));
        }
        self.put(")");
        self.close(list, NodeKind::ArgList);
        found
    }

    fn block(&mut self, parent: usize, body: Vec<E>) -> usize {
        let block = self.open(Some(parent));
        self.put("{ ");
        for e in body {
            self.expr(block, e);
            self.put("; ");
        }
        self.put("}");
        self.close(block, NodeKind::Other)
    }

    fn path(&self, text: &str, start: u32, resolution: Option<Resolution>) -> Path {
        let last = text.rsplit("::").next().unwrap();
        Path {
            range: TextRange { start, end: start + text.len() as u32 },
            qualified: text.contains("::"),
            segment: Some(PathSegment { name: Some(last.to_string()), generic_args: None }),
            resolution,
        }
    }

    fn expr(&mut self, parent: usize, e: E) -> usize {
        let start = self.text.len() as u32;
        match e {
            E::Name(name) => {
                let n = self.open(Some(parent));
                self.put(name);
                let path = self.path(name, start, Some(Resolution::Other));
                self.close(n, NodeKind::PathExpr(Some(path)))
            }
            E::Lit(text) => {
                let n = self.open(Some(parent));
                self.put(text);
                self.close(n, NodeKind::Other)
            }
            E::Function(text, function) => {
                let n = self.open(Some(parent));
                self.put(text);
                let path = self.path(text, start, function.map(Resolution::Function));
                self.close(n, NodeKind::PathExpr(Some(path)))
            }
            E::Constructor(text) => {
                let n = self.open(Some(parent));
                self.put(text);
                let path = self.path(text, start, Some(Resolution::Constructor));
                self.close(n, NodeKind::PathExpr(Some(path)))
            }
            E::Field(inner, name) => {
                let n = self.open(Some(parent));
                let expr = self.expr(n, *inner);
                self.put(".");
                self.put(name);
                let access = FieldAccess { expr: Some(expr), name: Some(name.to_string()) };
                self.close(n, NodeKind::Field(access))
            }
            E::Ref(inner) => {
                let n = self.open(Some(parent));
                self.put("&");
                let expr = self.expr(n, *inner);
                self.close(n, NodeKind::RefExpr { mutable: false, expr: Some(expr) })
            }
            E::RefMut(inner) => {
                let n = self.open(Some(parent));
                self.put("&mut ");
                let expr = self.expr(n, *inner);
                self.close(n, NodeKind::RefExpr { mutable: true, expr: Some(expr) })
            }
            E::Method(receiver, name, resolved, args) => {
                let n = self.open(Some(parent));
                let receiver = self.expr(n, *receiver);
                self.put(".");
                self.put(name);
                let args = self.args(n, args);
                let call = MethodCall {
                    name: Some(name.to_string()),
                    receiver: Some(receiver),
                    args: Some(args),
                    resolved,
                    site: self.site(n),
                };
                self.close(n, NodeKind::MethodCall(call))
            }
            E::Call(callee, args) => {
                let n = self.open(Some(parent));
                let callee = self.expr(n, *callee);
                let args = self.args(n, args);
                let call = Call { callee: Some(callee), args: Some(args), site: self.site(n) };
                self.close(n, NodeKind::Call(call))
            }
            E::Closure(param, body) => {
                let n = self.open(Some(parent));
                self.put("|");
                self.put(param);
                self.put("| ");
                let body = self.expr(n, *body);
                self.close(n, NodeKind::Closure { body: Some(body) })
            }
            E::Let(pattern, value) => {
                let n = self.open(Some(parent));
                self.put("let ");
                self.put(pattern);
                self.put(" = ");
                self.expr(n, *value);
                self.close(n, NodeKind::LetStmt)
            }
            E::Assign(place, value) => {
                let n = self.open(Some(parent));
                let lhs = self.expr(n, *place);
                self.put(" = ");
                self.expr(n, *value);
                let op = Some(BinaryOp::Assignment);
                self.close(n, NodeKind::BinExpr { op, lhs: Some(lhs) })
            }
            E::Equals(left, right) => {
                let n = self.open(Some(parent));
                let lhs = self.expr(n, *left);
                self.put(" == ");
                self.expr(n, *right);
                self.close(n, NodeKind::BinExpr { op: Some(BinaryOp::Other), lhs: Some(lhs) })
            }
            E::Paren(inner) => {
                let n = self.open(Some(parent));
                self.put("(");
                let expr = self.expr(n, *inner);
                self.put(")");
                self.close(n, NodeKind::ParenExpr { expr: Some(expr) })
            }
            E::Tuple(parts) => {
                let n = self.open(Some(parent));
                self.put("(");
                for part in parts {
                    self.expr(n, part);
                    self.put(", ");
                }
                self.put(")");
                self.close(n, NodeKind::TupleExpr)
            }
            E::Return(inner) => {
                let n = self.open(Some(parent));
                self.put("return ");
                self.expr(n, *inner);
                self.close(n, NodeKind::ReturnExpr)
            }
            E::Record(name, field, value) => {
                let n = self.open(Some(parent));
                self.put(name);
                self.put(" { ");
                let f = self.open(Some(n));
                self.put(field);
                self.put(": ");
                self.expr(f, *value);
                self.close(f, NodeKind::RecordExprField);
                self.put(" }");
                self.close(n, NodeKind::Other)
            }
            E::Unsafe(inner) => {
                let n = self.open(Some(parent));
                self.put("unsafe { ");
                self.expr(n, *inner);
                self.put(" }");
                self.close(n, NodeKind::Other)
            }
            E::Nested(is_unsafe, body) => self.function(Some(parent), "nested", is_unsafe, body),
            E::Typed(display, implements, inner) => {
                let n = self.expr(parent, *inner);
                self.nodes[n].ty = Some(type_info(display, implements, None));
                n
            }
            E::Pointing(display, implements, target, inner) => {
                let n = self.expr(parent, *inner);
                self.nodes[n].ty = Some(type_info(display, implements, Some(target)));
                n
            }
            E::Expanded(crates, inner) => {
                let n = self.expr(parent, *inner);
                let expansions = crates
                    .into_iter()
                    .map(|(defined_in, called_in)| Expansion {
                        defined_in: defined_in.map(str::to_string),
                        called_in: called_in.map(str::to_string),
                    })
                    .collect();
                match &mut self.nodes[n].kind {
                    NodeKind::MethodCall(call) => call.site.expansions = expansions,
                    NodeKind::Call(call) => call.site.expansions = expansions,
                    _ => unreachable!(),
                }
                n
            }
        }
    }

    /// Writes a free function.
    fn function(
        &mut self,
        parent: Option<usize>,
        name: &str,
        is_unsafe: bool,
        body: Vec<E>,
    ) -> usize {
        let n = self.open(parent.or(Some(0)));
        self.put(if is_unsafe { "unsafe fn " } else { "fn " });
        self.put(name);
        self.put("() ");
        let body = self.block(n, body);
        let item = FnItem {
            name: Some(name.to_string()),
            is_unsafe,
            self_param_type: None,
            body: Some(body),
        };
        let n = self.close(n, NodeKind::FnItem(item));
        self.put("\n");
        n
    }

    fn method(&mut self, parent: usize, method: Method) -> usize {
        let n = self.open(Some(parent));
        self.put("fn ");
        self.put(method.name.unwrap_or(""));
        let own = type_path("Self", Some(Resolution::Other));
        let ty = match method.receiver {
            Receiver::PinMutSelf => Some(pin_of(reference(true, own))),
            Receiver::PinRefSelf => Some(pin_of(reference(false, own))),
            Receiver::RefMut => None,
        };
        match &ty {
            Some(ty) => {
                let text = format!("(self: {}) ", ty.text);
                self.put(&text);
            }
            None => self.put("(&mut self) "),
        }
        let body = method.body.map(|body| self.block(n, body));
        let item = FnItem {
            name: method.name.map(str::to_string),
            is_unsafe: false,
            self_param_type: ty,
            body,
        };
        self.close(n, NodeKind::FnItem(item))
    }

    /// Writes an impl block for the type at position `adt`.
    fn item(&mut self, name: &str, adt: usize, imp: Impl) -> usize {
        let n = self.open(Some(0));
        let start = self.text.len() as u32;
        self.put("impl ");
        if let Some((implemented, _)) = imp.implemented {
            self.put(implemented);
            self.put(" for ");
        }
        self.put(name);
        self.put(" { ");
        let mut functions = vec![];
        let items = imp.methods.map(|methods| {
            let mut items = vec![AssocItem::Other];
            for method in methods {
                let f = self.method(n, method);
                functions.push(f);
                items.push(AssocItem::FnItem(f));
                self.put(" ");
            }
            items
        });
        self.put("}");
        let is_trait_impl = imp.implemented.is_some();
        let item = ImplItem {
            impl_token: if imp.keyword {
                Some(TextRange { start, end: start + 4 })
            } else {
                None
            },
            trait_type: imp.implemented.map(|(t, i)| type_path(t, Some(Resolution::Trait(i)))),
            self_type: Some(type_path(name, Some(Resolution::Adt(adt)))),
            type_params: imp.params,
            where_predicates: imp.bounds,
            items,
        };
        self.close(n, NodeKind::Impl(item));
        self.put("\n");
        let file = self.file_id as usize;
        let mut members = vec![ImplMember::Other, ImplMember::Function(None)];
        for node in functions {
            members.push(ImplMember::Function(Some(FnSource { file, node })));
        }
        self.impls.push(ImplDef { is_trait_impl, items: members });
        n
    }

    /// Writes an impl block for `Foo`.
    fn foo(&mut self, imp: Impl) -> usize {
        self.item("Foo", FOO, imp)
    }
}

// ---------------------------------------------------------------------------
// Workspaces
// ---------------------------------------------------------------------------

fn some(text: &str) -> Option<String> {
    Some(text.to_string())
}

fn function_of(name: &str, module: &str, krate: &str, container: FnContainer) -> FunctionDef {
    FunctionDef {
        name: name.to_string(),
        module_name: some(module),
        crate_name: some(krate),
        container,
    }
}

fn type_info(
    display: &str,
    implements: Vec<usize>,
    target_implements: Option<Vec<usize>>,
) -> TypeInfo {
    TypeInfo { display: display.to_string(), implements, target_implements }
}

fn field_of(name: &str, display: &str, implements: Vec<usize>) -> FieldDef {
    FieldDef { name: name.to_string(), ty: type_info(display, implements, None) }
}

/// A workspace that is checked, with the texts of its files.
struct Fixture {
    workspace: Workspace,
    texts: Vec<String>,
}

/// A workspace with `core` and the struct `Foo`; file `i` must have the identifier `i`.
fn fixture(files: Vec<File>) -> Fixture {
    let in_pin = FnContainer::Impl(Some(PIN));
    let mut texts = vec![];
    let mut sources = vec![];
    let mut impls = vec![];
    for mut file in files {
        file.close(0, NodeKind::Other);
        texts.push(file.text);
        impls.append(&mut file.impls);
        sources.push(SourceFile { file_id: file.file_id, nodes: file.nodes });
    }
    let workspace = Workspace {
        files: sources,
        crates: vec![
            CrateDef { name: some("main"), modules: vec![] },
            CrateDef {
                name: some("core"),
                modules: vec![
                    ModuleDef { name: some("ops"), declarations: vec![Declaration::Trait(DROP)] },
                    ModuleDef {
                        name: some("marker"),
                        declarations: vec![
                            Declaration::Other,
                            Declaration::Trait(COPY),
                            Declaration::Trait(UNPIN),
                        ],
                    },
                ],
            },
        ],
        adts: vec![
            AdtDef {
                kind: AdtKind::Struct,
                name: "Pin".to_string(),
                module_name: some("pin"),
                crate_name: some("core"),
                record_fields: None,
                fields: vec![],
                impls: vec![],
            },
            AdtDef {
                kind: AdtKind::Struct,
                name: "Foo".to_string(),
                module_name: None,
                crate_name: some("main"),
                record_fields: Some(vec![]),
                fields: vec![],
                impls,
            },
        ],
        functions: vec![
            function_of("map_unchecked_mut", "pin", "core", in_pin),
            function_of("get_unchecked_mut", "pin", "core", in_pin),
            function_of("new", "pin", "core", in_pin),
            function_of("new_unchecked", "pin", "core", in_pin),
            function_of("replace", "mem", "core", FnContainer::Module),
            function_of("swap", "mem", "core", FnContainer::Module),
            function_of("take", "mem", "core", FnContainer::Module),
            function_of("read", "ptr", "core", FnContainer::Module),
            function_of("observe", "main", "main", FnContainer::Module),
            function_of("new", "string", "alloc", FnContainer::Impl(None)),
            function_of("clear", "string", "alloc", FnContainer::Impl(None)),
        ],
        traits: vec![
            TraitDef { name: "Copy".to_string(), crate_name: some("core") },
            TraitDef { name: "Unpin".to_string(), crate_name: some("core") },
            TraitDef { name: "Drop".to_string(), crate_name: some("core") },
        ],
    };
    Fixture { workspace, texts }
}

impl Fixture {
    /// The text of a file at a place.
    fn at(&self, range: FileRange) -> &str {
        let text = &self.texts[range.file_id as usize];
        &text[range.range.start as usize..range.range.end as usize]
    }

    fn consistency(&self) -> Vec<Diagnostic> {
        assert!(self.workspace.is_well_formed());
        self.workspace.pin_consistency(0)
    }

    fn misuse(&self) -> Vec<Diagnostic> {
        assert!(self.workspace.is_well_formed());
        self.workspace.pin_misuse(0)
    }

    fn unpin(&self) -> Vec<Diagnostic> {
        assert!(self.workspace.is_well_formed());
        self.workspace.pin_unpina(0)
    }

    /// Checks that a diagnostic says what is wanted, at the wanted text.
    fn expect(&self, found: &Diagnostic, code: &str, severity: Severity, text: &str, message: &str) {
        assert_eq!(found.code, code);
        assert_eq!(found.severity, severity);
        assert_eq!(self.at(found.range), text);
        assert_eq!(found.message, message);
    }
}

/// A workspace with one file.
fn single(write: impl FnOnce(&mut File)) -> Fixture {
    let mut file = File::new(0);
    write(&mut file);
    fixture(vec![file])
}

fn messages(found: &[Diagnostic]) -> Vec<&str> {
    found.iter().map(|d| d.message.as_str()).collect()
}

fn codes(found: &[Diagnostic]) -> Vec<&str> {
    found.iter().map(|d| d.code).collect()
}

fn inconsistent(field: &str, here: &str, there: &str) -> String {
    format!(
        "field `{field}` is treated as non-structurally pinned here (in `{here}`), but as structurally pinned elsewhere (e.g. in `{there}`). This inconsistency is unsound: one site relies on the pin guarantee while the other has broken it."
    )
}

fn moved(field: &str, how: &str) -> String {
    format!(
        "structurally pinned field `{field}` is {how} in `Drop::drop`. This breaks the pin guarantee: pinned values must remain at the same memory location until their destructor runs to completion. Either leave this field untouched in `drop`, or migrate the type to `pin-project` (which generates a sound `Drop`)."
    )
}

fn drop_hint(fields: &str) -> String {
    format!(
        "manual `Drop` impl on a type with structurally pinned field(s): `{fields}`. The body of `drop` receives `&mut self` and must not move out of these fields, or the pin guarantee is broken. Verify, or migrate to `pin-project` which generates a sound `Drop` for you."
    )
}

fn missing_bounds(fields: &str) -> String {
    format!(
        "`impl Unpin` on a type with structurally pinned field(s) missing the corresponding `Unpin` bound(s): `{fields}`. This is unsound: callers may move the outer type even though the projection assumes its pinned field stays pinned."
    )
}

fn hand_rolled(name: &str) -> String {
    format!(
        "hand-rolled pin projection via `Pin::{name}`; consider using `pin-project` or `pin-project-lite` to enforce structural-pinning invariants automatically"
    )
}

fn unsound(fields: &str) -> String {
    format!(
        "`impl Unpin` is unsound: structurally pinned field(s) {fields} have type(s) that are not `Unpin`. Either remove this manual `Unpin` impl (the auto-trait would correctly leave the type `!Unpin`), or add `Unpin` bounds covering each pinned field's type."
    )
}

const UNCHECKED: &str = "`Pin::new_unchecked` is `unsafe`; the caller must guarantee that the pointee will not be moved before its drop. If pinning a heap value, prefer `Box::pin`. If pinning a stack value, prefer the `pin!` macro from `core::pin` (Rust 1.68+) or the `pin-utils` crate. Suppress this hint with `#[allow(...)]` if the safety reasoning is documented at the call site.";

// ---------------------------------------------------------------------------
// Consistency of projections
// ---------------------------------------------------------------------------

#[test]
fn detects_inconsistent_field_projection() {
    let f = single(|file| {
        file.foo(inherent(vec![
            pinned("pinned", vec![block_unsafe(map("inner"))]),
            pinned("unpinned", vec![block_unsafe(by_mut(of(get(), "inner")))]),
        ]));
    });
    let found = f.consistency();
    assert_eq!(found.len(), 1);
    f.expect(
        &found[0],
        "pin-inconsistent-projection",
        Severity::Warning,
        "self.get_unchecked_mut().inner",
        "field `inner` is treated as non-structurally pinned here (in `unpinned`), but as structurally pinned elsewhere (e.g. in `pinned`). This inconsistency is unsound: one site relies on the pin guarantee while the other has broken it.",
    );
    assert!(found[0].fixes.is_none());
}

#[test]
fn no_warn_when_consistently_structural() {
    let f = single(|file| {
        file.foo(inherent(vec![
            pinned("p1", vec![block_unsafe(map("inner"))]),
            pinned("p2", vec![block_unsafe(map("inner"))]),
        ]));
    });
    assert!(f.consistency().is_empty());
}

#[test]
fn no_warn_when_different_fields() {
    let f = single(|file| {
        file.foo(inherent(vec![
            pinned("p", vec![block_unsafe(map("pinned_field"))]),
            pinned("u", vec![block_unsafe(by_mut(of(get(), "unpinned_field")))]),
        ]));
    });
    assert!(f.consistency().is_empty());
}

#[test]
fn ignores_non_pin_methods() {
    let f = single(|file| {
        file.foo(inherent(vec![
            pinned("p", vec![block_unsafe(map("inner"))]),
            Method {
                name: Some("ordinary"),
                receiver: Receiver::RefMut,
                body: Some(vec![by_mut(self_dot("inner"))]),
            },
        ]));
    });
    assert!(f.consistency().is_empty());
}

#[test]
fn methods_without_a_mutable_pin_take_no_part() {
    for receiver in [Receiver::RefMut, Receiver::PinRefSelf] {
        let f = single(|file| {
            file.foo(inherent(vec![
                pinned("p", vec![map("inner")]),
                Method { name: Some("u"), receiver, body: Some(vec![of(get(), "inner")]) },
            ]));
        });
        assert!(f.consistency().is_empty());
    }
}

#[test]
fn every_non_structural_site_is_reported_with_the_first_structural_method() {
    let f = single(|file| {
        file.foo(inherent(vec![
            pinned("u1", vec![of(get(), "a"), of(get(), "b")]),
            pinned("s1", vec![map("a")]),
            pinned("s2", vec![map("a")]),
            pinned("u2", vec![of(get(), "a")]),
        ]));
    });
    let found = f.consistency();
    assert_eq!(
        messages(&found),
        vec![inconsistent("a", "u1", "s1"), inconsistent("a", "u2", "s1")]
    );
    assert_eq!(f.at(found[0].range), "self.get_unchecked_mut().a");
    assert!(found[0].range.range.end < found[1].range.range.start);
}

#[test]
fn one_method_may_conflict_with_itself() {
    let f = single(|file| {
        file.foo(inherent(vec![pinned("both", vec![map("a"), of(get(), "a")])]));
    });
    assert_eq!(messages(&f.consistency()), vec![inconsistent("a", "both", "both")]);
}

#[test]
fn impls_are_judged_one_by_one() {
    let f = single(|file| {
        file.foo(inherent(vec![pinned("s", vec![map("a")])]));
        file.foo(inherent(vec![pinned("u", vec![of(get(), "a")])]));
    });
    assert!(f.consistency().is_empty());
}

#[test]
fn trait_impls_are_not_searched_for_projections() {
    let f = single(|file| {
        let mut imp = of_drop(vec![pinned("s", vec![map("a")]), pinned("u", vec![of(get(), "a")])]);
        imp.implemented = Some(("Copy", COPY));
        file.foo(imp);
    });
    assert!(f.consistency().is_empty());
}

#[test]
fn a_chain_of_fields_pins_its_first_field() {
    let f = single(|file| {
        let chain = of(of(of(E::Name("s"), "outer"), "middle"), "leaf");
        file.foo(inherent(vec![
            pinned("s", vec![map_to(chain)]),
            pinned("u", vec![of(get(), "outer"), of(get(), "leaf")]),
        ]));
    });
    assert_eq!(messages(&f.consistency()), vec![inconsistent("outer", "u", "s")]);
}

#[test]
fn a_chain_may_start_anywhere() {
    let f = single(|file| {
        let place = of(E::Call(Box::new(E::Name("f")), vec![]), "outer");
        file.foo(inherent(vec![
            pinned("s", vec![map_to(place)]),
            pinned("u", vec![of(get(), "outer")]),
        ]));
    });
    assert_eq!(messages(&f.consistency()), vec![inconsistent("outer", "u", "s")]);
}

#[test]
fn other_closures_project_to_nothing() {
    let closures = vec![
        E::Closure("s", Box::new(by_ref(of(E::Name("s"), "a")))),
        E::Closure("s", Box::new(by_mut(E::Name("s")))),
        E::Closure("s", Box::new(of(E::Name("s"), "a"))),
        E::Name("project"),
    ];
    for closure in closures {
        let f = single(|file| {
            let this = Box::new(this());
            let map = E::Method(this, "map_unchecked_mut", Some(MAP_UNCHECKED_MUT), vec![closure]);
            file.foo(inherent(vec![
                pinned("s", vec![map]),
                pinned("u", vec![of(get(), "a")]),
            ]));
        });
        assert!(f.consistency().is_empty());
    }
}

#[test]
fn projections_start_from_self() {
    let f = single(|file| {
        let other = Box::new(E::Name("other"));
        let get = E::Method(other, "get_unchecked_mut", Some(GET_UNCHECKED_MUT), vec![]);
        file.foo(inherent(vec![
            pinned("s", vec![map("a")]),
            pinned("u", vec![of(get, "a")]),
        ]));
    });
    assert!(f.consistency().is_empty());
}

#[test]
fn a_bare_get_unchecked_mut_is_no_projection() {
    let f = single(|file| {
        file.foo(inherent(vec![
            pinned("s", vec![map("a")]),
            pinned("u", vec![bind("this", get()), of(paren(get()), "a")]),
        ]));
    });
    assert!(f.consistency().is_empty());
}

#[test]
fn methods_of_other_types_are_no_projections() {
    for resolved in [None, Some(OBSERVE), Some(STRING_NEW)] {
        let f = single(|file| {
            let get = E::Method(Box::new(this()), "get_unchecked_mut", resolved, vec![]);
            file.foo(inherent(vec![
                pinned("s", vec![map("a")]),
                pinned("u", vec![of(get, "a")]),
            ]));
        });
        assert!(f.consistency().is_empty());
    }
}

#[test]
fn a_method_without_a_name_is_called_unnamed() {
    let f = single(|file| {
        let mut unnamed = pinned("u", vec![of(get(), "a")]);
        unnamed.name = None;
        file.foo(inherent(vec![pinned("s", vec![map("a")]), unnamed]));
    });
    assert_eq!(messages(&f.consistency()), vec![inconsistent("a", "<unnamed>", "s")]);
}

#[test]
fn impls_and_methods_without_bodies_are_skipped() {
    let f = single(|file| {
        let mut bodiless = pinned("u", vec![]);
        bodiless.body = None;
        file.foo(inherent(vec![pinned("s", vec![map("a")]), bodiless]));
        let mut open = inherent(vec![]);
        open.methods = None;
        file.foo(open);
    });
    assert!(f.consistency().is_empty());
}

#[test]
fn only_the_pin_of_core_and_std_counts() {
    let write = |file: &mut File| {
        file.foo(inherent(vec![
            pinned("s", vec![map("a")]),
            pinned("u", vec![of(get(), "a")]),
        ]));
    };
    let found = |change: fn(&mut AdtDef)| {
        let mut f = single(write);
        change(&mut f.workspace.adts[PIN]);
        f.consistency().len()
    };
    assert_eq!(found(|_| {}), 1);
    assert_eq!(found(|pin| pin.crate_name = some("std")), 1);
    assert_eq!(found(|pin| pin.crate_name = some("alloc")), 0);
    assert_eq!(found(|pin| pin.crate_name = None), 0);
    assert_eq!(found(|pin| pin.module_name = some("pins")), 0);
    assert_eq!(found(|pin| pin.module_name = None), 0);
    assert_eq!(found(|pin| pin.name = "Pinned".to_string()), 0);
    assert_eq!(found(|pin| pin.kind = AdtKind::Enum), 0);
}

// ---------------------------------------------------------------------------
// `Drop` impls
// ---------------------------------------------------------------------------

/// `Foo` with the given structurally pinned fields and the given `drop`.
fn dropping(fields: Vec<&'static str>, body: Vec<E>) -> Fixture {
    single(|file| {
        let methods = fields.into_iter().map(|field| pinned("p", vec![map(field)])).collect();
        file.foo(inherent(methods));
        file.foo(of_drop(vec![drop_fn(body)]));
    })
}

#[test]
fn warns_on_mem_replace_in_drop() {
    let replace = call("mem::replace", MEM_REPLACE, vec![by_mut(self_dot("inner")), string_new()]);
    let f = dropping(vec!["inner"], vec![bind("_", replace)]);
    let found = f.consistency();
    assert_eq!(found.len(), 1);
    f.expect(
        &found[0],
        "pin-drop-moves-pinned-field",
        Severity::Warning,
        "mem::replace(&mut self.inner, String::new())",
        "structurally pinned field `inner` is replaced via `mem::replace` in `Drop::drop`. This breaks the pin guarantee: pinned values must remain at the same memory location until their destructor runs to completion. Either leave this field untouched in `drop`, or migrate the type to `pin-project` (which generates a sound `Drop`).",
    );
}

#[test]
fn warns_on_assignment_in_drop() {
    let f = dropping(vec!["inner"], vec![assign(self_dot("inner"), string_new())]);
    let found = f.consistency();
    assert_eq!(found.len(), 1);
    f.expect(
        &found[0],
        "pin-drop-moves-pinned-field",
        Severity::Warning,
        "self.inner",
        "structurally pinned field `inner` is reassigned (overwriting the pinned value in-place) in `Drop::drop`. This breaks the pin guarantee: pinned values must remain at the same memory location until their destructor runs to completion. Either leave this field untouched in `drop`, or migrate the type to `pin-project` (which generates a sound `Drop`).",
    );
}

#[test]
fn no_warn_on_empty_drop() {
    let f = dropping(vec!["inner"], vec![]);
    assert!(f.consistency().is_empty());
}

#[test]
fn no_warn_on_borrow_only_drop() {
    let f = dropping(vec!["inner"], vec![call("observe", OBSERVE, vec![by_ref(self_dot("inner"))])]);
    assert!(f.consistency().is_empty());
}

#[test]
fn keeps_hint_for_unclassified_method_call() {
    let clear = E::Method(Box::new(self_dot("inner")), "clear", Some(STRING_CLEAR), vec![]);
    let f = dropping(vec!["inner"], vec![clear]);
    let found = f.consistency();
    assert_eq!(found.len(), 1);
    f.expect(
        &found[0],
        "pin-drop-on-structural",
        Severity::WeakWarning,
        "impl",
        "manual `Drop` impl on a type with structurally pinned field(s): `inner`. The body of `drop` receives `&mut self` and must not move out of these fields, or the pin guarantee is broken. Verify, or migrate to `pin-project` which generates a sound `Drop` for you.",
    );
}

#[test]
fn no_warn_when_moved_field_is_not_structural() {
    let args = vec![by_mut(self_dot("free_field")), string_new()];
    let replace = call("mem::replace", MEM_REPLACE, args);
    let f = dropping(vec!["pinned_field"], vec![bind("_", replace)]);
    assert!(f.consistency().is_empty());
}

#[test]
fn the_functions_that_move_through_references() {
    let cases = [
        ("mem::replace", MEM_REPLACE, "replaced via `mem::replace`"),
        ("mem::swap", MEM_SWAP, "swapped via `mem::swap`"),
        ("mem::take", MEM_TAKE, "taken via `mem::take`"),
        ("ptr::read", PTR_READ, "read out via `ptr::read`"),
    ];
    for (path, function, how) in cases {
        let args = vec![E::Name("other"), by_mut(self_dot("a"))];
        let f = dropping(vec!["a"], vec![call(path, function, args)]);
        assert_eq!(messages(&f.consistency()), vec![moved("a", how)]);
        let f = dropping(vec!["a"], vec![call(path, function, vec![by_ref(self_dot("a"))])]);
        assert_eq!(messages(&f.consistency()), vec![moved("a", how)]);
    }
}

#[test]
fn moving_functions_are_those_of_core_and_std() {
    let found = |change: fn(&mut FunctionDef)| {
        let take = call("mem::take", MEM_TAKE, vec![by_mut(self_dot("a"))]);
        let mut f = dropping(vec!["a"], vec![take]);
        change(&mut f.workspace.functions[MEM_TAKE]);
        f.consistency().len()
    };
    assert_eq!(found(|_| {}), 1);
    assert_eq!(found(|take| take.crate_name = some("std")), 1);
    assert_eq!(found(|take| take.crate_name = some("alloc")), 0);
    assert_eq!(found(|take| take.module_name = some("ptr")), 0);
    assert_eq!(found(|take| take.module_name = None), 0);
    assert_eq!(found(|take| take.name = "forget".to_string()), 0);
}

#[test]
fn a_field_passed_by_value_to_a_moving_function_is_reported_as_that_call() {
    let f = dropping(vec!["a"], vec![call("ptr::read", PTR_READ, vec![self_dot("a")])]);
    let found = f.consistency();
    assert_eq!(messages(&found), vec![moved("a", "read out via `ptr::read`")]);
    assert_eq!(f.at(found[0].range), "ptr::read(self.a)");
}

#[test]
fn uses_by_value_are_moves() {
    let uses = vec![
        bind("x", self_dot("a")),
        bind("x", paren(self_dot("a"))),
        E::Return(Box::new(self_dot("a"))),
        E::Tuple(vec![self_dot("a")]),
        E::Record("Bar", "f", Box::new(self_dot("a"))),
        call("observe", OBSERVE, vec![self_dot("a")]),
        call("observe", OBSERVE, vec![paren(self_dot("a"))]),
        some_of(self_dot("a")),
        E::Method(Box::new(E::Name("x")), "push", None, vec![self_dot("a")]),
    ];
    for e in uses {
        let f = dropping(vec!["a"], vec![e]);
        let found = f.consistency();
        assert_eq!(messages(&found), vec![moved("a", "moved by value")]);
        assert_eq!(f.at(found[0].range), "self.a");
    }
}

#[test]
fn copies_are_no_moves() {
    let copy = || E::Typed("i32", vec![UNPIN, COPY], Box::new(self_dot("a")));
    let f = dropping(
        vec!["a"],
        vec![bind("x", copy()), call("observe", OBSERVE, vec![copy()]), E::Tuple(vec![copy()])],
    );
    assert!(f.consistency().is_empty());
    let f = dropping(vec!["a"], vec![assign(copy(), E::Lit("1"))]);
    assert_eq!(codes(&f.consistency()), vec!["pin-drop-moves-pinned-field"]);
    let no_copy = E::Typed("String", vec![UNPIN], Box::new(self_dot("a")));
    let f = dropping(vec!["a"], vec![bind("x", no_copy)]);
    assert_eq!(messages(&f.consistency()), vec![moved("a", "moved by value")]);
}

#[test]
fn without_a_copy_trait_every_use_by_value_is_a_move() {
    let copy = E::Typed("i32", vec![COPY], Box::new(self_dot("a")));
    let mut f = dropping(vec!["a"], vec![bind("x", copy)]);
    f.workspace.crates[1].modules.remove(1);
    assert_eq!(messages(&f.consistency()), vec![moved("a", "moved by value")]);
}

#[test]
fn unclear_uses_leave_a_hint() {
    let uses = vec![
        E::Equals(Box::new(self_dot("a")), Box::new(E::Lit("1"))),
        assign(E::Name("x"), self_dot("a")),
        of(self_dot("a"), "b"),
        paren(paren(self_dot("a"))),
        by_ref(paren(paren(self_dot("a")))),
        assign(paren(paren(self_dot("a"))), E::Lit("1")),
        E::Method(Box::new(paren(self_dot("a"))), "clear", None, vec![]),
        self_dot("a"),
    ];
    for e in uses {
        let f = dropping(vec!["a"], vec![e]);
        assert_eq!(messages(&f.consistency()), vec![drop_hint("a")]);
    }
}

#[test]
fn one_pair_of_parentheses_is_looked_through() {
    let f = dropping(vec!["a"], vec![by_ref(paren(self_dot("a"))), by_mut(paren(self_dot("a")))]);
    assert!(f.consistency().is_empty());
    let f = dropping(vec!["a"], vec![assign(paren(self_dot("a")), E::Lit("1"))]);
    let found = f.consistency();
    assert_eq!(
        messages(&found),
        vec![moved("a", "reassigned (overwriting the pinned value in-place)")]
    );
    assert_eq!(f.at(found[0].range), "self.a");
    let args = vec![by_mut(paren(self_dot("a"))), string_new()];
    let f = dropping(vec!["a"], vec![call("mem::replace", MEM_REPLACE, args)]);
    let found = f.consistency();
    assert_eq!(messages(&found), vec![moved("a", "replaced via `mem::replace`")]);
    assert_eq!(f.at(found[0].range), "mem::replace(&mut (self.a), String::new())");
}

#[test]
fn code_that_does_not_use_a_field_keeps_its_verdict() {
    let own = || {
        vec![
            vec![],
            vec![by_ref(self_dot("a"))],
            vec![E::Method(Box::new(self_dot("a")), "clear", None, vec![])],
            vec![bind("x", self_dot("a"))],
            vec![assign(self_dot("a"), E::Lit("1"))],
            vec![call("mem::take", MEM_TAKE, vec![by_mut(self_dot("a"))])],
        ]
    };
    let other = || {
        vec![
            assign(self_dot("b"), E::Lit("1")),
            call("mem::take", MEM_TAKE, vec![by_mut(self_dot("c"))]),
            E::Method(Box::new(self_dot("d")), "clear", None, vec![]),
        ]
    };
    for i in 0..6 {
        let alone = dropping(vec!["a"], own().remove(i));
        let mut before = other();
        before.append(&mut own().remove(i));
        let mut after = own().remove(i);
        after.append(&mut other());
        for more in [before, after] {
            let more = dropping(vec!["a"], more);
            assert_eq!(messages(&more.consistency()), messages(&alone.consistency()));
        }
    }
}

#[test]
fn fields_of_other_values_are_not_judged() {
    let f = dropping(
        vec!["a"],
        vec![
            bind("x", of(E::Name("other"), "a")),
            bind("y", of(of(E::Name("other"), "b"), "a")),
            bind("z", self_dot("b")),
        ],
    );
    assert!(f.consistency().is_empty());
}

#[test]
fn the_first_move_is_reported() {
    let f = dropping(
        vec!["a"],
        vec![
            by_ref(self_dot("a")),
            E::Method(Box::new(self_dot("a")), "clear", None, vec![]),
            assign(self_dot("a"), E::Lit("1")),
            bind("x", self_dot("a")),
        ],
    );
    let found = f.consistency();
    assert_eq!(
        messages(&found),
        vec![moved("a", "reassigned (overwriting the pinned value in-place)")]
    );
}

#[test]
fn each_moved_field_is_reported_and_moves_silence_the_hint() {
    let f = dropping(
        vec!["a", "b", "c", "d"],
        vec![
            E::Method(Box::new(self_dot("b")), "clear", None, vec![]),
            bind("x", self_dot("c")),
            assign(self_dot("a"), E::Lit("1")),
        ],
    );
    let found = f.consistency();
    assert_eq!(
        messages(&found),
        vec![
            moved("a", "reassigned (overwriting the pinned value in-place)"),
            moved("c", "moved by value"),
        ]
    );
}

#[test]
fn the_hint_lists_all_structural_fields() {
    let f = dropping(
        vec!["a", "b", "a", "c"],
        vec![E::Method(Box::new(self_dot("b")), "clear", None, vec![])],
    );
    assert_eq!(messages(&f.consistency()), vec![drop_hint("a, b, c")]);
}

#[test]
fn structural_fields_come_from_all_inherent_impls_of_the_type() {
    let f = single(|file| {
        file.foo(inherent(vec![pinned("p", vec![map("a")])]));
        file.foo(of_drop(vec![drop_fn(vec![bind("x", self_dot("b")), bind("y", self_dot("a"))])]));
        file.foo(inherent(vec![pinned("q", vec![map("b"), of(get(), "c")])]));
    });
    assert_eq!(
        messages(&f.consistency()),
        vec![moved("a", "moved by value"), moved("b", "moved by value")]
    );
    assert_eq!(f.workspace.structural_fields_by_adt(0), vec![vec![], vec!["a", "b"]]);
}

#[test]
fn a_type_without_structural_fields_may_do_anything_in_drop() {
    let f = single(|file| {
        file.foo(inherent(vec![pinned("q", vec![of(get(), "a")])]));
        file.foo(of_drop(vec![drop_fn(vec![bind("x", self_dot("a"))])]));
        file.foo(of_unpin(None));
    });
    assert!(f.consistency().is_empty());
}

#[test]
fn a_drop_impl_without_a_drop_body_is_fine() {
    let structural = || inherent(vec![pinned("p", vec![map("a")])]);
    let moves = || vec![bind("x", self_dot("a"))];
    let f = single(|file| {
        file.foo(structural());
        let mut other = drop_fn(moves());
        other.name = Some("dropped");
        file.foo(of_drop(vec![other]));
        let mut bodiless = drop_fn(vec![]);
        bodiless.body = None;
        file.foo(of_drop(vec![bodiless, drop_fn(moves())]));
        let mut open = of_drop(vec![]);
        open.methods = None;
        file.foo(open);
    });
    assert!(f.consistency().is_empty());
}

#[test]
fn only_the_traits_of_the_standard_library_are_checked() {
    let found = |change: fn(&mut TraitDef)| {
        let mut f = dropping(vec!["a"], vec![bind("x", self_dot("a"))]);
        change(&mut f.workspace.traits[DROP]);
        f.consistency().len()
    };
    assert_eq!(found(|_| {}), 1);
    assert_eq!(found(|drop| drop.crate_name = some("std")), 1);
    assert_eq!(found(|drop| drop.crate_name = some("alloc")), 1);
    assert_eq!(found(|drop| drop.crate_name = some("main")), 0);
    assert_eq!(found(|drop| drop.crate_name = None), 0);
    assert_eq!(found(|drop| drop.name = "Dropped".to_string()), 0);
}

#[test]
fn without_a_keyword_the_whole_impl_is_marked() {
    let f = single(|file| {
        file.foo(inherent(vec![pinned("p", vec![map("a")])]));
        let mut imp = of_drop(vec![drop_fn(vec![self_dot("a")])]);
        imp.keyword = false;
        file.foo(imp);
    });
    let found = f.consistency();
    assert_eq!(f.at(found[0].range), "impl Drop for Foo { fn drop(&mut self) { self.a; } }");
}

#[test]
fn verdicts_of_a_body() {
    let f = dropping(
        vec!["a"],
        vec![
            bind("x", self_dot("a")),
            E::Method(Box::new(self_dot("b")), "clear", None, vec![]),
            by_ref(self_dot("c")),
        ],
    );
    assert!(f.workspace.is_well_formed());
    let nodes = &f.workspace.files[0].nodes;
    let imp = nodes
        .iter()
        .position(|n| matches!(&n.kind, NodeKind::Impl(item) if item.trait_type.is_some()))
        .unwrap();
    let fields: Vec<String> = ["a", "b", "c", "d"].iter().map(|s| s.to_string()).collect();
    let verdicts = f.workspace.analyze_drop_body(0, imp, &fields);
    let names: Vec<&str> = verdicts.iter().map(|(name, _)| name.as_str()).collect();
    assert_eq!(names, vec!["a", "b", "c", "d"]);
    match verdicts[0].1 {
        DropVerdict::DefinitelyMoves { site, kind } => {
            assert_eq!(f.at(FileRange { file_id: 0, range: site }), "self.a");
            assert_eq!(kind, MovePatternKind::DirectMove);
        }
        _ => panic!("not moved"),
    }
    assert_eq!(verdicts[1].1, DropVerdict::PossiblyMoves);
    assert_eq!(verdicts[2].1, DropVerdict::NoMove);
    assert_eq!(verdicts[3].1, DropVerdict::NoMove);
}

#[test]
fn contexts_of_a_field() {
    let cases = vec![
        (by_ref(self_dot("a")), FieldUseContext::Borrow),
        (by_mut(self_dot("a")), FieldUseContext::Borrow),
        (assign(self_dot("a"), E::Lit("1")), FieldUseContext::Assignment),
        (bind("x", self_dot("a")), FieldUseContext::DirectMove),
        (E::Return(Box::new(self_dot("a"))), FieldUseContext::DirectMove),
        (E::Tuple(vec![paren(self_dot("a"))]), FieldUseContext::DirectMove),
        (E::Record("Bar", "f", Box::new(self_dot("a"))), FieldUseContext::DirectMove),
        (call("observe", OBSERVE, vec![self_dot("a")]), FieldUseContext::PassedAsArgument),
        (some_of(self_dot("a")), FieldUseContext::DirectMove),
        (some_of(paren(self_dot("a"))), FieldUseContext::DirectMove),
        (
            E::Method(Box::new(E::Name("x")), "push", None, vec![self_dot("a")]),
            FieldUseContext::PassedAsArgument,
        ),
        (by_ref(paren(self_dot("a"))), FieldUseContext::Borrow),
        (assign(paren(self_dot("a")), E::Lit("1")), FieldUseContext::Assignment),
        (
            E::Method(Box::new(paren(self_dot("a"))), "clear", None, vec![]),
            FieldUseContext::MethodReceiver,
        ),
        (by_ref(paren(paren(self_dot("a")))), FieldUseContext::Other),
        (
            E::Method(Box::new(self_dot("a")), "clear", None, vec![]),
            FieldUseContext::MethodReceiver,
        ),
        (E::Equals(Box::new(self_dot("a")), Box::new(E::Lit("1"))), FieldUseContext::Other),
        (assign(E::Name("x"), self_dot("a")), FieldUseContext::Other),
    ];
    for (e, wanted) in cases {
        let f = single(|file| {
            file.function(None, "f", false, vec![e]);
        });
        assert!(f.workspace.is_well_formed());
        let nodes = &f.workspace.files[0].nodes;
        let m = nodes.iter().position(|n| matches!(n.kind, NodeKind::Field(_))).unwrap();
        assert_eq!(classify_field_use_context(nodes, m), wanted);
    }
}

#[test]
fn moves_are_described() {
    assert_eq!(MovePatternKind::DirectMove.describe(), "moved by value");
    assert_eq!(MovePatternKind::MemReplace.describe(), "replaced via `mem::replace`");
    assert_eq!(MovePatternKind::MemSwap.describe(), "swapped via `mem::swap`");
    assert_eq!(MovePatternKind::MemTake.describe(), "taken via `mem::take`");
    assert_eq!(MovePatternKind::PtrRead.describe(), "read out via `ptr::read`");
    assert_eq!(
        MovePatternKind::Assignment.describe(),
        "reassigned (overwriting the pinned value in-place)"
    );
}

// ---------------------------------------------------------------------------
// `Unpin` impls and their bounds
// ---------------------------------------------------------------------------

fn record_field(name: &str, ty: TypeSyntax) -> RecordField {
    RecordField { name: some(name), ty: Some(ty) }
}

/// `Foo<T, U>` with the structurally pinned fields `a: T` and `b: U`, and an `Unpin` impl.
fn unpinning(bounds: Option<Vec<WherePredicate>>) -> Fixture {
    let mut f = single(|file| {
        file.foo(inherent(vec![pinned("p", vec![map("a"), map("b")])]));
        file.foo(of_unpin(bounds));
    });
    f.workspace.adts[FOO].record_fields = Some(vec![
        record_field("a", type_param("T")),
        record_field("free", type_param("V")),
        record_field("b", type_param("U")),
    ]);
    f
}

#[test]
fn warns_on_unpin_impl_missing_bound() {
    let mut f = single(|file| {
        file.foo(inherent(vec![pinned("p", vec![block_unsafe(map("inner"))])]));
        file.foo(of_unpin(None));
    });
    f.workspace.adts[FOO].record_fields = Some(vec![record_field("inner", type_param("T"))]);
    let found = f.consistency();
    assert_eq!(found.len(), 1);
    f.expect(
        &found[0],
        "pin-unpin-without-bounds",
        Severity::Warning,
        "impl",
        "`impl Unpin` on a type with structurally pinned field(s) missing the corresponding `Unpin` bound(s): `inner: T`. This is unsound: callers may move the outer type even though the projection assumes its pinned field stays pinned.",
    );
}

#[test]
fn no_warn_unpin_impl_with_bound() {
    let mut f = single(|file| {
        file.foo(inherent(vec![pinned("p", vec![block_unsafe(map("inner"))])]));
        file.foo(of_unpin(Some(vec![bounded(type_param("T"), vec![unpin_type()])])));
    });
    f.workspace.adts[FOO].record_fields = Some(vec![record_field("inner", type_param("T"))]);
    assert!(f.consistency().is_empty());
}

#[test]
fn every_missing_bound_is_listed() {
    let f = unpinning(None);
    assert_eq!(messages(&f.consistency()), vec![missing_bounds("a: T, b: U")]);
    let f = unpinning(Some(vec![bounded(type_param("T"), vec![unpin_type()])]));
    assert_eq!(messages(&f.consistency()), vec![missing_bounds("b: U")]);
}

#[test]
fn bounds_may_stand_at_the_parameters() {
    let found = |params: Vec<TypeParam>, bounds: Option<Vec<WherePredicate>>| {
        let mut f = single(|file| {
            file.foo(inherent(vec![pinned("p", vec![map("a"), map("b")])]));
            file.foo(Impl { params, ..of_unpin(bounds) });
        });
        f.workspace.adts[FOO].record_fields =
            Some(vec![record_field("a", type_param("T")), record_field("b", type_param("U"))]);
        f.workspace.adts[FOO].fields =
            vec![field_of("a", "T", vec![]), field_of("b", "U", vec![])];
        let missing = messages(&f.consistency()).join("");
        let unsound = messages(&f.unpin()).join("");
        (missing, unsound)
    };
    let none = || (String::new(), String::new());
    let t = || param("T", Some(vec![unpin_type()]));
    let u = || param("U", Some(vec![None, unpin_type()]));
    assert_eq!(found(vec![t(), u()], None), none());
    assert_eq!(
        found(vec![t()], Some(vec![bounded(type_param("U"), vec![unpin_type()])])),
        none()
    );
    assert_eq!(
        found(vec![t(), param("U", None)], None),
        (missing_bounds("b: U"), unsound("`b`"))
    );
    let unnamed = TypeParam { name: None, bounds: Some(vec![unpin_type()]) };
    let copy = Some(type_path("Copy", Some(Resolution::Trait(COPY))));
    assert_eq!(
        found(vec![unnamed, param("T", Some(vec![copy])), u()], None),
        (missing_bounds("a: T"), unsound("`a`"))
    );
}

#[test]
fn bounds_may_stand_among_others() {
    let copy = Some(type_path("Copy", Some(Resolution::Trait(COPY))));
    let f = unpinning(Some(vec![
        bounded(type_param("T"), vec![None, copy, unpin_type()]),
        bounded(type_param("U"), vec![unpin_type()]),
        bounded(type_param("U"), vec![unpin_type()]),
    ]));
    assert!(f.consistency().is_empty());
}

#[test]
fn other_predicates_bound_nothing() {
    let copy = Some(type_path("Copy", Some(Resolution::Trait(COPY))));
    let unresolved = Some(type_path("Unpin", None));
    let f = unpinning(Some(vec![
        bounded(type_param("T"), vec![None, copy, unresolved]),
        bounded(type_param("T"), vec![]),
        WherePredicate { ty: Some(type_param("U")), bounds: None },
        WherePredicate { ty: None, bounds: Some(vec![unpin_type()]) },
    ]));
    assert_eq!(messages(&f.consistency()), vec![missing_bounds("a: T, b: U")]);
}

#[test]
fn only_bare_generic_parameters_need_a_bound() {
    let found = |ty: TypeSyntax| {
        let mut f = unpinning(Some(vec![bounded(type_param("U"), vec![unpin_type()])]));
        f.workspace.adts[FOO].record_fields = Some(vec![record_field("a", ty)]);
        messages(&f.consistency()).join("")
    };
    let with_path = |change: fn(&mut Path)| {
        let mut ty = type_param("T");
        if let TypeKind::Path(Some(path)) = &mut ty.kind {
            change(path);
        }
        ty
    };
    assert_eq!(found(type_param("T")), missing_bounds("a: T"));
    assert_eq!(found(type_param("U")), "");
    assert_eq!(found(reference(true, type_param("T"))), "");
    assert_eq!(found(type_path("String", Some(Resolution::Other))), "");
    assert_eq!(found(type_path("T", None)), "");
    assert_eq!(found(with_path(|path| path.qualified = true)), "");
    assert_eq!(found(with_path(|path| path.segment = None)), "");
    assert_eq!(
        found(with_path(|path| path.segment.as_mut().unwrap().generic_args = Some(vec![]))),
        ""
    );
    assert_eq!(found(TypeSyntax { text: "T".to_string(), kind: TypeKind::Path(None) }), "");
    assert_eq!(found(TypeSyntax { text: "T".to_string(), kind: TypeKind::Other }), "");
}

#[test]
fn only_structs_with_named_fields_are_checked_for_bounds() {
    let mut f = unpinning(None);
    f.workspace.adts[FOO].kind = AdtKind::Union;
    assert!(f.consistency().is_empty());
    let mut f = unpinning(None);
    f.workspace.adts[FOO].record_fields = None;
    assert!(f.consistency().is_empty());
    let mut f = unpinning(None);
    f.workspace.adts[FOO].record_fields = Some(vec![
        RecordField { name: None, ty: Some(type_param("T")) },
        RecordField { name: some("a"), ty: None },
    ]);
    assert!(f.consistency().is_empty());
}

#[test]
fn inconsistencies_come_before_trait_impls() {
    let f = single(|file| {
        file.foo(of_drop(vec![drop_fn(vec![bind("x", self_dot("a"))])]));
        file.foo(inherent(vec![pinned("p", vec![map("a"), of(get(), "a")])]));
    });
    assert_eq!(
        codes(&f.consistency()),
        vec!["pin-inconsistent-projection", "pin-drop-moves-pinned-field"]
    );
}

// ---------------------------------------------------------------------------
// Misuse
// ---------------------------------------------------------------------------

#[test]
fn warns_on_hand_rolled_map_unchecked_mut() {
    let f = single(|file| {
        file.foo(inherent(vec![pinned("project_inner", vec![block_unsafe(map("inner"))])]));
    });
    let found = f.misuse();
    assert_eq!(found.len(), 1);
    f.expect(
        &found[0],
        "pin-hand-rolled-projection",
        Severity::WeakWarning,
        "self.map_unchecked_mut(|s| &mut s.inner)",
        "hand-rolled pin projection via `Pin::map_unchecked_mut`; consider using `pin-project` or `pin-project-lite` to enforce structural-pinning invariants automatically",
    );
    assert!(found[0].fixes.is_none());
}

#[test]
fn warns_on_hand_rolled_get_unchecked_mut() {
    let f = single(|file| {
        file.foo(inherent(vec![pinned("raw", vec![block_unsafe(by_mut(of(get(), "inner")))])]));
    });
    let found = f.misuse();
    assert_eq!(found.len(), 1);
    f.expect(
        &found[0],
        "pin-hand-rolled-projection",
        Severity::WeakWarning,
        "self.get_unchecked_mut()",
        "hand-rolled pin projection via `Pin::get_unchecked_mut`; consider using `pin-project` or `pin-project-lite` to enforce structural-pinning invariants automatically",
    );
}

/// `fn f() { let mut x = <value>; let _p = Pin::new(&mut x); }`, with the type of `&mut x` and
/// the traits that the type of `x` implements.
fn pin_new(value: E, display: &'static str, implements: Vec<usize>) -> Fixture {
    single(|file| {
        let arg = E::Pointing(display, vec![UNPIN], implements, Box::new(by_mut(E::Name("x"))));
        let pin = call("Pin::new", PIN_NEW, vec![arg]);
        file.function(None, "f", false, vec![bind("mut x", value), bind("_p", pin)]);
    })
}

#[test]
fn no_warn_pin_new_on_unpin() {
    let f = pin_new(E::Lit("5_i32"), "&mut i32", vec![UNPIN]);
    assert!(f.misuse().is_empty());
    assert!(f.consistency().is_empty());
    assert!(f.unpin().is_empty());
}

#[test]
fn warns_on_pin_new_with_non_unpin() {
    let make = E::Call(Box::new(E::Name("make")), vec![]);
    let f = pin_new(make, "&mut NotUnpin", vec![]);
    let found = f.misuse();
    assert_eq!(found.len(), 1);
    f.expect(
        &found[0],
        "pin-new-on-non-unpin",
        Severity::Error,
        "Pin::new(&mut x)",
        "`Pin::new` requires `Unpin`, but `&mut NotUnpin` is not `Unpin`. Use `Box::pin(...)` for heap pinning, or `unsafe { Pin::new_unchecked(...) } if you can guarantee the value is never moved.",
    );
}

#[test]
fn pin_new_can_be_replaced_by_box_pin() {
    let f = pin_new(E::Lit("5"), "&mut NotUnpin", vec![COPY]);
    let found = f.misuse();
    let fixes = found[0].fixes.as_ref().unwrap();
    assert_eq!(fixes.len(), 1);
    let fix = &fixes[0];
    assert_eq!(fix.id, "replace_pin_new_with_box_pin");
    assert_eq!(fix.kind, FixKind::QuickFix);
    assert_eq!(fix.label, "Replace `Pin::new` with `Box::pin`");
    assert_eq!(fix.replacement, "Box::pin");
    assert_eq!(f.at(fix.replaced), "Pin::new");
    assert_eq!(f.at(FileRange { file_id: 0, range: fix.target }), "Pin::new(&mut x)");
}

#[test]
fn pin_new_is_judged_by_what_is_pinned() {
    let found = |arg: E| {
        let f = single(|file| {
            file.function(None, "f", false, vec![call("Pin::new", PIN_NEW, vec![arg])]);
        });
        codes(&f.misuse()).join("")
    };
    let x = || Box::new(E::Name("x"));
    assert_eq!(found(E::Pointing("&mut S", vec![UNPIN], vec![COPY], x())), "pin-new-on-non-unpin");
    assert_eq!(found(E::Pointing("Box<S>", vec![UNPIN], vec![], x())), "pin-new-on-non-unpin");
    assert_eq!(found(E::Pointing("&mut i32", vec![UNPIN], vec![COPY, UNPIN], x())), "");
    assert_eq!(found(E::Pointing("Handle", vec![], vec![UNPIN], x())), "");
    assert_eq!(found(E::Typed("S", vec![COPY], x())), "pin-new-on-non-unpin");
    assert_eq!(found(E::Typed("i32", vec![UNPIN], x())), "");
}

#[test]
fn no_warn_inside_pin_project_macro() {
    for name in ["pin_project", "pin_project_lite"] {
        let main = Some("main");
        let cases = [
            vec![(Some(name), main)],
            vec![(None, None), (main, main), (Some(name), main)],
            vec![(main, Some(name))],
        ];
        for crates in cases {
            let f = single(|file| {
                let call = E::Expanded(crates, Box::new(map("inner")));
                file.foo(inherent(vec![pinned("project", vec![call])]));
            });
            assert!(f.misuse().is_empty());
        }
    }
}

#[test]
fn other_macros_do_not_hide_a_projection() {
    let f = single(|file| {
        let main = Some("main");
        let crates = vec![
            (None, None),
            (main, main),
            (Some("pin_utils"), Some("pin_utils")),
            (Some("pin_projects"), main),
        ];
        let call = E::Expanded(crates, Box::new(map("inner")));
        file.foo(inherent(vec![pinned("project", vec![call])]));
    });
    assert_eq!(messages(&f.misuse()), vec![hand_rolled("map_unchecked_mut")]);
}

#[test]
fn projections_by_path_are_reported_too() {
    let f = single(|file| {
        let path = "Pin::get_unchecked_mut";
        let get = call(path, GET_UNCHECKED_MUT, vec![E::Name("other")]);
        file.function(None, "f", false, vec![get]);
    });
    let found = f.misuse();
    assert_eq!(messages(&found), vec![hand_rolled("get_unchecked_mut")]);
    assert_eq!(f.at(found[0].range), "Pin::get_unchecked_mut(other)");
}

#[test]
fn the_resolved_function_decides() {
    let f = single(|file| {
        let renamed = E::Method(Box::new(this()), "renamed", Some(GET_UNCHECKED_MUT), vec![]);
        let unresolved = E::Method(Box::new(this()), "get_unchecked_mut", None, vec![]);
        let other = E::Method(Box::new(this()), "get_unchecked_mut", Some(STRING_NEW), vec![]);
        file.function(None, "f", false, vec![renamed, unresolved, other]);
    });
    let found = f.misuse();
    assert_eq!(messages(&found), vec![hand_rolled("get_unchecked_mut")]);
    assert_eq!(f.at(found[0].range), "self.renamed()");
}

#[test]
fn misuse_comes_in_document_order() {
    let f = single(|file| {
        let arg = E::Typed("S", vec![], Box::new(get()));
        let pin = call("Pin::new", PIN_NEW, vec![arg]);
        file.function(None, "f", false, vec![map("a"), pin]);
    });
    assert_eq!(
        codes(&f.misuse()),
        vec!["pin-hand-rolled-projection", "pin-new-on-non-unpin", "pin-hand-rolled-projection"]
    );
}

#[test]
fn pin_new_is_judged_with_one_argument_of_known_type() {
    let typed = || E::Typed("S", vec![], Box::new(E::Name("x")));
    for args in [vec![], vec![typed(), typed()], vec![E::Name("x")]] {
        let f = single(|file| {
            file.function(None, "f", false, vec![call("Pin::new", PIN_NEW, args)]);
        });
        assert!(f.misuse().is_empty());
    }
    let f = single(|file| {
        let string = call("String::new", STRING_NEW, vec![typed()]);
        let observe = call("observe", OBSERVE, vec![typed()]);
        let name = E::Call(Box::new(E::Name("new")), vec![typed()]);
        let method = E::Method(Box::new(E::Name("y")), "new", Some(PIN_NEW), vec![typed()]);
        file.function(None, "f", false, vec![string, observe, name, method]);
    });
    assert!(f.misuse().is_empty());
}

#[test]
fn without_an_unpin_trait_pin_new_is_not_judged() {
    let mut f = pin_new(E::Lit("5"), "S", vec![]);
    f.workspace.crates[1].name = some("corelike");
    assert!(f.misuse().is_empty());
    let mut f = pin_new(E::Lit("5"), "S", vec![]);
    f.workspace.crates[1].modules[1].name = None;
    assert!(f.misuse().is_empty());
}

#[test]
fn marker_traits_come_from_the_first_marker_module_of_core_or_std() {
    let f = pin_new(E::Lit("5"), "S", vec![]);
    assert!(f.workspace.is_well_formed());
    assert_eq!(f.workspace.find_marker_trait("Unpin"), Some(UNPIN));
    assert_eq!(f.workspace.find_marker_trait("Copy"), Some(COPY));
    assert_eq!(f.workspace.find_marker_trait("Drop"), None);

    let marker = |declared: usize| ModuleDef {
        name: some("marker"),
        declarations: vec![Declaration::Trait(declared)],
    };
    let mut f = pin_new(E::Lit("5"), "S", vec![]);
    f.workspace.crates[1].modules.insert(0, marker(DROP));
    assert!(f.workspace.is_well_formed());
    assert_eq!(f.workspace.find_marker_trait("Unpin"), None);
    assert_eq!(f.workspace.find_marker_trait("Drop"), Some(DROP));

    f.workspace.crates.push(CrateDef { name: some("std"), modules: vec![marker(UNPIN)] });
    assert_eq!(f.workspace.find_marker_trait("Unpin"), Some(UNPIN));
}

// ---------------------------------------------------------------------------
// Soundness of `Unpin` and `Pin::new_unchecked`
// ---------------------------------------------------------------------------

#[test]
fn warns_on_unpin_impl_with_phantom_pinned() {
    let mut f = single(|file| {
        file.foo(inherent(vec![pinned("p", vec![block_unsafe(map("_p"))])]));
        file.foo(of_unpin(None));
    });
    f.workspace.adts[FOO].fields =
        vec![field_of("inner", "i32", vec![COPY, UNPIN]), field_of("_p", "PhantomPinned", vec![])];
    let found = f.unpin();
    assert_eq!(found.len(), 1);
    f.expect(
        &found[0],
        "pin-unsound-unpin-impl",
        Severity::Warning,
        "impl",
        "`impl Unpin` is unsound: structurally pinned field(s) `_p` (contains `PhantomPinned`) have type(s) that are not `Unpin`. Either remove this manual `Unpin` impl (the auto-trait would correctly leave the type `!Unpin`), or add `Unpin` bounds covering each pinned field's type.",
    );
}

#[test]
fn hints_on_pin_new_unchecked() {
    let f = single(|file| {
        let pin = call("Pin::new_unchecked", PIN_NEW_UNCHECKED, vec![by_mut(E::Name("x"))]);
        let body = vec![bind("mut x", E::Lit("5_i32")), bind("_p", block_unsafe(pin))];
        file.function(None, "make", false, body);
    });
    let found = f.unpin();
    assert_eq!(found.len(), 1);
    f.expect(
        &found[0],
        "pin-new-unchecked-unjustified",
        Severity::WeakWarning,
        "Pin::new_unchecked(&mut x)",
        "`Pin::new_unchecked` is `unsafe`; the caller must guarantee that the pointee will not be moved before its drop. If pinning a heap value, prefer `Box::pin`. If pinning a stack value, prefer the `pin!` macro from `core::pin` (Rust 1.68+) or the `pin-utils` crate. Suppress this hint with `#[allow(...)]` if the safety reasoning is documented at the call site.",
    );
}

#[test]
fn no_hint_inside_unsafe_fn() {
    let f = single(|file| {
        let pin = call("Pin::new_unchecked", PIN_NEW_UNCHECKED, vec![by_mut(E::Name("x"))]);
        let body = vec![bind("mut x", E::Lit("5_i32")), bind("_p", pin)];
        file.function(None, "make", true, body);
    });
    assert!(f.unpin().is_empty());
}

#[test]
fn warns_cross_file_unpin_impl() {
    let mut bad = File::new(0);
    bad.foo(of_unpin(None));
    let mut lib = File::new(1);
    lib.foo(inherent(vec![pinned("p", vec![block_unsafe(map("_p"))])]));
    let mut f = fixture(vec![bad, lib]);
    f.workspace.adts[FOO].fields = vec![field_of("_p", "PhantomPinned", vec![])];
    let found = f.unpin();
    assert_eq!(messages(&found), vec![unsound("`_p` (contains `PhantomPinned`)")]);
    assert_eq!(f.at(found[0].range), "impl");
    assert_eq!(found[0].range.file_id, 0);
    assert!(f.workspace.pin_unpina(1).is_empty());
    assert!(f.consistency().is_empty());
}

/// `Foo` with the structurally pinned fields `a`, `b` and `c`, and an `Unpin` impl.
fn unsound_fixture(fields: Vec<FieldDef>, bounds: Option<Vec<WherePredicate>>) -> Fixture {
    let mut f = single(|file| {
        file.foo(inherent(vec![pinned("p", vec![map("a"), map("b")]), pinned("q", vec![map("c")])]));
        file.foo(of_unpin(bounds));
    });
    f.workspace.adts[FOO].fields = fields;
    f
}

#[test]
fn every_offending_field_is_listed() {
    let fields = vec![
        field_of("c", "(i32, PhantomPinned)", vec![]),
        field_of("free", "PhantomPinned", vec![]),
        field_of("a", "T", vec![COPY]),
        field_of("b", "i32", vec![UNPIN]),
    ];
    let f = unsound_fixture(fields, None);
    let found = f.unpin();
    assert_eq!(messages(&found), vec![unsound("`c` (contains `PhantomPinned`), `a`")]);
}

#[test]
fn covered_and_unpin_fields_are_fine() {
    let fields = || vec![field_of("a", "T", vec![]), field_of("b", "i32", vec![UNPIN])];
    let f = unsound_fixture(
        fields(),
        Some(vec![bounded(type_param("T"), vec![unpin_type()])]),
    );
    assert!(f.unpin().is_empty());
    let f = unsound_fixture(
        fields(),
        Some(vec![bounded(type_param("U"), vec![unpin_type()])]),
    );
    assert_eq!(messages(&f.unpin()), vec![unsound("`a`")]);
}

#[test]
fn the_soundness_of_unpin_asks_for_a_struct_and_the_trait() {
    let fields = || vec![field_of("a", "T", vec![])];
    let mut f = unsound_fixture(fields(), None);
    f.workspace.adts[FOO].kind = AdtKind::Enum;
    assert!(f.unpin().is_empty());
    let mut f = unsound_fixture(fields(), None);
    f.workspace.traits[UNPIN].name = "Pinned".to_string();
    assert!(f.unpin().is_empty());
    let mut f = unsound_fixture(fields(), None);
    f.workspace.crates.remove(1);
    assert!(f.unpin().is_empty());
}

#[test]
fn projections_to_the_last_field_of_a_chain_count_for_unpin() {
    let found = |field: &str| {
        let mut f = single(|file| {
            let chain = of(of(E::Name("s"), "outer"), "leaf");
            let shared = E::Method(
                Box::new(this()),
                "map_unchecked_mut",
                Some(MAP_UNCHECKED_MUT),
                vec![E::Closure("s", Box::new(by_ref(of(E::Name("s"), "shared"))))],
            );
            let mut imp = inherent(vec![pinned("p", vec![map_to(chain), shared])]);
            imp.methods.as_mut().unwrap().push(Method {
                name: Some("q"),
                receiver: Receiver::PinRefSelf,
                body: Some(vec![map("other"), of(get(), "raw")]),
            });
            imp.methods.as_mut().unwrap().push(Method {
                name: Some("r"),
                receiver: Receiver::RefMut,
                body: Some(vec![map("unseen")]),
            });
            file.foo(imp);
            file.foo(of_unpin(None));
        });
        f.workspace.adts[FOO].fields = vec![field_of(field, "T", vec![])];
        f.unpin().len()
    };
    assert_eq!(found("leaf"), 1);
    assert_eq!(found("outer"), 0);
    assert_eq!(found("other"), 1);
    assert_eq!(found("shared"), 0);
    assert_eq!(found("raw"), 0);
    assert_eq!(found("unseen"), 0);
}

#[test]
fn structural_fields_are_collected_once() {
    let f = single(|file| {
        file.foo(inherent(vec![pinned("p", vec![map("b"), map("a"), map("b")])]));
        file.foo(inherent(vec![pinned("q", vec![map("a"), map("c")])]));
        file.foo(of_unpin(None));
    });
    assert!(f.workspace.is_well_formed());
    assert_eq!(f.workspace.collect_structural_fields_cross_file(FOO), vec!["b", "a", "c"]);
    assert!(f.workspace.collect_structural_fields_cross_file(PIN).is_empty());
}

#[test]
fn trait_impls_pin_nothing_for_unpin() {
    let f = single(|file| {
        let mut imp = of_drop(vec![pinned("p", vec![map("a")])]);
        imp.implemented = Some(("Copy", COPY));
        file.foo(imp);
    });
    assert!(f.workspace.is_well_formed());
    assert!(f.workspace.collect_structural_fields_cross_file(FOO).is_empty());
}

#[test]
fn the_closest_function_decides_about_the_hint() {
    let pin = || call("Pin::new_unchecked", PIN_NEW_UNCHECKED, vec![E::Name("x")]);
    let f = single(|file| {
        file.function(None, "outer", true, vec![E::Nested(false, vec![pin()])]);
    });
    assert_eq!(messages(&f.unpin()), vec![UNCHECKED]);
    let f = single(|file| {
        file.function(None, "outer", false, vec![E::Nested(true, vec![block_unsafe(pin())])]);
    });
    assert!(f.unpin().is_empty());
    let f = single(|file| {
        file.expr(0, pin());
    });
    assert_eq!(messages(&f.unpin()), vec![UNCHECKED]);
}

#[test]
fn known_pinning_macros_give_no_hint() {
    let found = |crates: Vec<(Option<&'static str>, Option<&'static str>)>| {
        let f = single(|file| {
            let pin = call("Pin::new_unchecked", PIN_NEW_UNCHECKED, vec![E::Name("x")]);
            file.function(None, "f", false, vec![E::Expanded(crates, Box::new(pin))]);
        });
        f.unpin().len()
    };
    assert_eq!(found(vec![]), 1);
    let main = Some("main");
    assert_eq!(found(vec![(None, None), (main, main), (main, Some("futures"))]), 1);
    for name in ["pin_project", "pin_project_lite"] {
        assert_eq!(found(vec![(main, main), (Some(name), main)]), 0);
        assert_eq!(found(vec![(main, Some(name))]), 0);
    }
    for name in ["pin_utils", "futures_util"] {
        assert_eq!(found(vec![(main, Some(name)), (None, None)]), 0);
        assert_eq!(found(vec![(main, main), (None, Some(name))]), 0);
        assert_eq!(found(vec![(Some(name), main)]), 1);
    }
}

#[test]
fn other_calls_give_no_hint() {
    let f = single(|file| {
        let new = call("Pin::new", PIN_NEW, vec![E::Name("x")]);
        let observe = call("observe", OBSERVE, vec![E::Name("x")]);
        let unresolved = E::Call(Box::new(E::Function("Pin::new_unchecked", None)), vec![]);
        let nested = E::Call(Box::new(paren(E::Name("f"))), vec![]);
        let receiver = Box::new(E::Name("x"));
        let method = E::Method(receiver, "new_unchecked", Some(PIN_NEW_UNCHECKED), vec![]);
        file.function(None, "f", false, vec![new, observe, unresolved, nested, method]);
    });
    assert!(f.unpin().is_empty());
}

#[test]
fn unsound_impls_come_before_unchecked_calls() {
    let mut f = single(|file| {
        let pin = call("Pin::new_unchecked", PIN_NEW_UNCHECKED, vec![E::Name("x")]);
        file.function(None, "f", false, vec![pin]);
        file.foo(inherent(vec![pinned("p", vec![map("a")])]));
        file.foo(of_unpin(None));
    });
    f.workspace.adts[FOO].fields = vec![field_of("a", "T", vec![])];
    assert_eq!(
        codes(&f.unpin()),
        vec!["pin-unsound-unpin-impl", "pin-new-unchecked-unjustified"]
    );
}
