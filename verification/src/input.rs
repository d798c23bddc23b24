//! The input model: a plain-value declaration tree, one per translation
//! unit, as handed over by the upstream C++ analysis engine. The walker and
//! the type resolver consume this tree; nothing here depends on the engine.

use vstd::prelude::*;

verus! {

/// Primitive type tags as the engine reports them. Signed and unsigned
/// character kinds are already folded into `Char` / `UChar`.
#[derive(Clone, Copy, Debug, PartialEq, Eq, Structural)]
pub enum PrimKind {
    Void,
    Bool,
    Char,
    UChar,
    WChar,
    Short,
    UShort,
    Int,
    UInt,
    Long,
    ULong,
    LongLong,
    ULongLong,
    Float,
    Double,
}

/// Which sort of user-defined type a named type node refers to.
#[derive(Clone, Copy, Debug, PartialEq, Eq, Structural)]
pub enum NamedKind {
    Enum,
    Typedef,
    Record,
}

/// A type node of the declaration tree.
pub enum TypeNode {
    /// A primitive type, `is_const` being its const-qualification.
    Prim { kind: PrimKind, is_const: bool },
    /// An enum, typedef or record type. `scopes` lists the enclosing
    /// namespace/class names from outermost to innermost; `None` stands for
    /// an anonymous enclosing scope. `targs` carries the template argument
    /// types of a record, where the engine exposes them.
    Named {
        kind: NamedKind,
        name: String,
        scopes: Vec<Option<String>>,
        targs: Option<Vec<TypeNode>>,
        is_const: bool,
    },
    /// A pointer to `pointee`.
    Pointer { pointee: Box<TypeNode> },
    /// An lvalue reference to `pointee`.
    Reference { pointee: Box<TypeNode> },
    /// A fixed-size array of `element`.
    Array { size: usize, element: Box<TypeNode> },
    /// One level of elaboration sugar (`struct Foo` for `Foo`).
    Elaborated { inner: Box<TypeNode> },
    /// A kind the compiler deliberately ignores (unexposed sugar, `auto`,
    /// block pointers, member pointers).
    Ignored,
    /// Any other kind: an unsupported type.
    Other { is_const: bool },
}

/// What the engine's compile-time evaluation of an expression produced.
/// Floating results carry both the 64-bit value and its 32-bit rounding,
/// each as IEEE-754 bits.
pub enum EvalResult {
    Integer(i64),
    Float { bits64: u64, bits32: u32 },
    Str(String),
    Other,
}

/// An expression node: its type, if the engine reports one, and the result
/// of evaluating it, if evaluation succeeded.
pub struct Expr {
    pub ty: Option<TypeNode>,
    pub eval: Option<EvalResult>,
}

/// Accessibility of a declaration as the engine reports it.
#[derive(Clone, Copy, Debug, PartialEq, Eq, Structural)]
pub enum Visibility {
    Public,
    Protected,
    Private,
}

/// Storage class of a variable declaration.
#[derive(Clone, Copy, Debug, PartialEq, Eq, Structural)]
pub enum Storage {
    Extern,
    Static,
    Other,
}

/// Where a declaration came from: whether the location lies in a system
/// header, and the file path, both whole and split into its components.
pub struct Loc {
    pub in_system_header: bool,
    pub path: String,
    pub segments: Vec<String>,
}

/// One function parameter declaration.
pub struct ParamDecl {
    pub name: String,
    pub ty: TypeNode,
    pub default: Option<Expr>,
}

/// One enumerator, with the engine's signed and unsigned readings of its
/// value.
pub struct EnumeratorDecl {
    pub name: String,
    pub signed_value: i64,
    pub unsigned_value: u64,
}

/// A declaration: its source location, its accessibility where the engine
/// reports one, and its kind-specific payload.
pub struct Decl {
    pub loc: Loc,
    pub access: Option<Visibility>,
    pub kind: DeclKind,
}

pub enum DeclKind {
    /// A variable or data-member declaration. `const_qualified` is the
    /// const-qualification of the declared type as a whole; `init` is the
    /// initializer expression, if any.
    Var {
        name: String,
        ty: TypeNode,
        const_qualified: bool,
        storage: Storage,
        init: Option<Expr>,
    },
    /// An enum declaration. `name` is `None` for an anonymous enum.
    EnumDecl { name: Option<String>, underlying: TypeNode, enumerators: Vec<EnumeratorDecl> },
    /// A typedef or type-alias declaration.
    AliasDecl { name: String, underlying: TypeNode },
    /// A class or struct declaration with its member declarations.
    ClassDecl { name: String, members: Vec<Decl> },
    /// A function or method declaration. `ret` is the declared result type;
    /// `params` is `None` where the engine exposes no parameter list.
    /// `is_method` tells a class-scope method from a free function.
    FunctionDecl {
        name: String,
        is_method: bool,
        params: Option<Vec<ParamDecl>>,
        ret: TypeNode,
        is_virtual: bool,
        is_static: bool,
        is_const: bool,
    },
    /// A namespace declaration. `name` is `None` for an anonymous namespace.
    NamespaceDecl { name: Option<String>, children: Vec<Decl> },
    /// Any other declaration kind: skipped by the walker.
    Other,
}

// ------------------------------------------------------------------
// Ghost mirrors and views.
// ------------------------------------------------------------------

pub ghost enum SpecTypeNode {
    Prim { kind: PrimKind, is_const: bool },
    Named {
        kind: NamedKind,
        name: Seq<char>,
        scopes: Seq<Option<Seq<char>>>,
        targs: Option<Seq<SpecTypeNode>>,
        is_const: bool,
    },
    Pointer { pointee: Box<SpecTypeNode> },
    Reference { pointee: Box<SpecTypeNode> },
    Array { size: usize, element: Box<SpecTypeNode> },
    Elaborated { inner: Box<SpecTypeNode> },
    Ignored,
    Other { is_const: bool },
}

pub ghost enum SpecEvalResult {
    Integer(i64),
    Float { bits64: u64, bits32: u32 },
    Str(Seq<char>),
    Other,
}

pub ghost struct SpecExpr {
    pub ty: Option<SpecTypeNode>,
    pub eval: Option<SpecEvalResult>,
}

pub ghost struct SpecLoc {
    pub in_system_header: bool,
    pub path: Seq<char>,
    pub segments: Seq<Seq<char>>,
}

pub ghost struct SpecParamDecl {
    pub name: Seq<char>,
    pub ty: SpecTypeNode,
    pub default: Option<SpecExpr>,
}

pub ghost struct SpecEnumerator {
    pub name: Seq<char>,
    pub signed_value: i64,
    pub unsigned_value: u64,
}

pub ghost struct SpecDecl {
    pub loc: SpecLoc,
    pub access: Option<Visibility>,
    pub kind: SpecDeclKind,
}

pub ghost enum SpecDeclKind {
    Var {
        name: Seq<char>,
        ty: SpecTypeNode,
        const_qualified: bool,
        storage: Storage,
        init: Option<SpecExpr>,
    },
    EnumDecl { name: Option<Seq<char>>, underlying: SpecTypeNode, enumerators: Seq<SpecEnumerator> },
    AliasDecl { name: Seq<char>, underlying: SpecTypeNode },
    ClassDecl { name: Seq<char>, members: Seq<SpecDecl> },
    FunctionDecl {
        name: Seq<char>,
        is_method: bool,
        params: Option<Seq<SpecParamDecl>>,
        ret: SpecTypeNode,
        is_virtual: bool,
        is_static: bool,
        is_const: bool,
    },
    NamespaceDecl { name: Option<Seq<char>>, children: Seq<SpecDecl> },
    Other,
}

pub open spec fn opt_string_view(o: Option<String>) -> Option<Seq<char>> {
    match o {
        Option::Some(s) => Option::Some(s@),
        Option::None => Option::None,
    }
}

/// The pointwise view of a scope-name list.
pub open spec fn opt_strings_view(s: Seq<Option<String>>) -> Seq<Option<Seq<char>>> {
    s.map_values(|x: Option<String>| opt_string_view(x))
}

pub open spec fn type_node_view(t: TypeNode) -> SpecTypeNode
    decreases t,
{
    match t {
        TypeNode::Prim { kind, is_const } => SpecTypeNode::Prim { kind, is_const },
        TypeNode::Named { kind, name, scopes, targs, is_const } => SpecTypeNode::Named {
            kind,
            name: name@,
            scopes: opt_strings_view(scopes@),
            targs: match targs {
                Option::Some(v) => Option::Some(type_nodes_view(v@)),
                Option::None => Option::None,
            },
            is_const,
        },
        TypeNode::Pointer { pointee } => SpecTypeNode::Pointer {
            pointee: Box::new(type_node_view(*pointee)),
        },
        TypeNode::Reference { pointee } => SpecTypeNode::Reference {
            pointee: Box::new(type_node_view(*pointee)),
        },
        TypeNode::Array { size, element } => SpecTypeNode::Array {
            size,
            element: Box::new(type_node_view(*element)),
        },
        TypeNode::Elaborated { inner } => SpecTypeNode::Elaborated {
            inner: Box::new(type_node_view(*inner)),
        },
        TypeNode::Ignored => SpecTypeNode::Ignored,
        TypeNode::Other { is_const } => SpecTypeNode::Other { is_const },
    }
}

pub open spec fn type_nodes_view(s: Seq<TypeNode>) -> Seq<SpecTypeNode>
    decreases s,
{
    if s.len() == 0 {
        Seq::empty()
    } else {
        type_nodes_view(s.drop_last()).push(type_node_view(s.last()))
    }
}

impl View for TypeNode {
    type V = SpecTypeNode;

    open spec fn view(&self) -> SpecTypeNode {
        type_node_view(*self)
    }
}

impl View for EvalResult {
    type V = SpecEvalResult;

    open spec fn view(&self) -> SpecEvalResult {
        match *self {
            EvalResult::Integer(i) => SpecEvalResult::Integer(i),
            EvalResult::Float { bits64, bits32 } => SpecEvalResult::Float { bits64, bits32 },
            EvalResult::Str(s) => SpecEvalResult::Str(s@),
            EvalResult::Other => SpecEvalResult::Other,
        }
    }
}

impl View for Expr {
    type V = SpecExpr;

    open spec fn view(&self) -> SpecExpr {
        SpecExpr {
            ty: match self.ty {
                Option::Some(t) => Option::Some(t@),
                Option::None => Option::None,
            },
            eval: match self.eval {
                Option::Some(e) => Option::Some(e@),
                Option::None => Option::None,
            },
        }
    }
}

impl View for Loc {
    type V = SpecLoc;

    open spec fn view(&self) -> SpecLoc {
        SpecLoc {
            in_system_header: self.in_system_header,
            path: self.path@,
            segments: crate::schema::seq_view(self.segments@),
        }
    }
}

impl View for ParamDecl {
    type V = SpecParamDecl;

    open spec fn view(&self) -> SpecParamDecl {
        SpecParamDecl {
            name: self.name@,
            ty: self.ty@,
            default: opt_expr_view(self.default),
        }
    }
}

impl View for EnumeratorDecl {
    type V = SpecEnumerator;

    open spec fn view(&self) -> SpecEnumerator {
        SpecEnumerator {
            name: self.name@,
            signed_value: self.signed_value,
            unsigned_value: self.unsigned_value,
        }
    }
}

pub open spec fn opt_expr_view(o: Option<Expr>) -> Option<SpecExpr> {
    match o {
        Option::Some(e) => Option::Some(e@),
        Option::None => Option::None,
    }
}

pub open spec fn decl_view(d: Decl) -> SpecDecl
    decreases d,
{
    SpecDecl { loc: d.loc@, access: d.access, kind: decl_kind_view(d.kind) }
}

pub open spec fn decl_kind_view(k: DeclKind) -> SpecDeclKind
    decreases k,
{
    match k {
        DeclKind::Var { name, ty, const_qualified, storage, init } => SpecDeclKind::Var {
            name: name@,
            ty: ty@,
            const_qualified,
            storage,
            init: opt_expr_view(init),
        },
        DeclKind::EnumDecl { name, underlying, enumerators } => SpecDeclKind::EnumDecl {
            name: opt_string_view(name),
            underlying: underlying@,
            enumerators: crate::schema::seq_view(enumerators@),
        },
        DeclKind::AliasDecl { name, underlying } => SpecDeclKind::AliasDecl {
            name: name@,
            underlying: underlying@,
        },
        DeclKind::ClassDecl { name, members } => SpecDeclKind::ClassDecl {
            name: name@,
            members: decls_view(members@),
        },
        DeclKind::FunctionDecl { name, is_method, params, ret, is_virtual, is_static, is_const } => {
            SpecDeclKind::FunctionDecl {
                name: name@,
                is_method,
                params: match params {
                    Option::Some(v) => Option::Some(crate::schema::seq_view(v@)),
                    Option::None => Option::None,
                },
                ret: ret@,
                is_virtual,
                is_static,
                is_const,
            }
        },
        DeclKind::NamespaceDecl { name, children } => SpecDeclKind::NamespaceDecl {
            name: opt_string_view(name),
            children: decls_view(children@),
        },
        DeclKind::Other => SpecDeclKind::Other,
    }
}

pub open spec fn decls_view(s: Seq<Decl>) -> Seq<SpecDecl>
    decreases s,
{
    if s.len() == 0 {
        Seq::empty()
    } else {
        decls_view(s.drop_last()).push(decl_view(s.last()))
    }
}

impl View for Decl {
    type V = SpecDecl;

    open spec fn view(&self) -> SpecDecl {
        decl_view(*self)
    }
}

} // verus!
