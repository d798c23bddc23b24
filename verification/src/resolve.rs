//! The type resolver: classifies a type node of the declaration tree into a
//! `TypeRef` of the schema, or fails with one of two error kinds.

use vstd::prelude::*;

use crate::input::{NamedKind, PrimKind, SpecTypeNode, TypeNode};
use crate::schema::{SpecTypeName, SpecTypeRef, TypeName, TypeRef, TypeSemantic};

verus! {

/// Why a declaration or type was not resolved: `Ignored` is deliberately out
/// of the supported scope and silent; `Unsupported` is an in-scope shape the
/// compiler cannot classify, surfaced as a diagnostic by the caller.
#[derive(Clone, Copy, Debug, PartialEq, Eq, Structural)]
pub enum ParseError {
    Ignored,
    Unsupported,
}

/// Strips one level of elaboration sugar; transparent to resolution.
pub open spec fn spec_strip(t: SpecTypeNode) -> SpecTypeNode {
    match t {
        SpecTypeNode::Elaborated { inner } => *inner,
        _ => t,
    }
}

/// The primitive tag of the schema matching a primitive tag of the engine.
pub open spec fn prim_type_name(k: PrimKind) -> SpecTypeName {
    match k {
        PrimKind::Void => SpecTypeName::Void,
        PrimKind::Bool => SpecTypeName::Bool,
        PrimKind::Char => SpecTypeName::Char,
        PrimKind::UChar => SpecTypeName::UChar,
        PrimKind::WChar => SpecTypeName::WChar,
        PrimKind::Short => SpecTypeName::Short,
        PrimKind::UShort => SpecTypeName::UShort,
        PrimKind::Int => SpecTypeName::Int,
        PrimKind::UInt => SpecTypeName::UInt,
        PrimKind::Long => SpecTypeName::Long,
        PrimKind::ULong => SpecTypeName::ULong,
        PrimKind::LongLong => SpecTypeName::LongLong,
        PrimKind::ULongLong => SpecTypeName::ULongLong,
        PrimKind::Float => SpecTypeName::Float,
        PrimKind::Double => SpecTypeName::Double,
    }
}

/// Every enclosing scope of a named type has a name.
pub open spec fn scopes_named(scopes: Seq<Option<Seq<char>>>) -> bool {
    forall|i: int| 0 <= i < scopes.len() ==> (#[trigger] scopes[i]) is Some
}

/// The qualified name path of a named type: the enclosing scope names from
/// outermost to innermost, then the type's own name.
pub open spec fn scope_path(scopes: Seq<Option<Seq<char>>>, name: Seq<char>) -> Seq<Seq<char>> {
    scopes.map_values(
        |o: Option<Seq<char>>|
            match o {
                Option::Some(s) => s,
                Option::None => Seq::empty(),
            },
    ).push(name)
}

/// Resolution of a type node: classify the qualifier shape by unwrapping at
/// most two levels of pointer/reference/array, then classify the base name.
pub open spec fn spec_resolve(t: SpecTypeNode) -> Result<SpecTypeRef, ParseError>
    decreases t, 1int,
{
    let t1 = spec_strip(t);
    match t1 {
        SpecTypeNode::Pointer { pointee } => {
            let q = spec_strip(*pointee);
            match q {
                SpecTypeNode::Pointer { pointee: r } => spec_base(
                    spec_strip(*r),
                    TypeSemantic::PointerToPointer,
                ),
                _ => spec_base(q, TypeSemantic::Pointer),
            }
        },
        SpecTypeNode::Reference { pointee } => {
            let q = spec_strip(*pointee);
            match q {
                SpecTypeNode::Pointer { pointee: r } => spec_base(
                    spec_strip(*r),
                    TypeSemantic::ReferenceToPointer,
                ),
                _ => spec_base(q, TypeSemantic::Reference),
            }
        },
        SpecTypeNode::Array { size, element } => {
            let q = spec_strip(*element);
            match q {
                SpecTypeNode::Pointer { pointee: r } => spec_base(
                    spec_strip(*r),
                    TypeSemantic::ArrayOfPointer(size),
                ),
                _ => spec_base(q, TypeSemantic::Array(size)),
            }
        },
        _ => spec_base(t1, TypeSemantic::Value),
    }
}

/// Classification of the base type reached after qualifier stripping.
pub open spec fn spec_base(t: SpecTypeNode, sem: TypeSemantic) -> Result<SpecTypeRef, ParseError>
    decreases t, 0int,
{
    match t {
        SpecTypeNode::Ignored => Result::Err(ParseError::Ignored),
        SpecTypeNode::Prim { kind, is_const } => {
            if kind == PrimKind::Void && sem == TypeSemantic::Value {
                Result::Err(ParseError::Unsupported)
            } else {
                Result::Ok(SpecTypeRef { name: prim_type_name(kind), semantic: sem, is_const })
            }
        },
        SpecTypeNode::Named { kind, name, scopes, targs, is_const } => {
            if !scopes_named(scopes) {
                Result::Err(ParseError::Unsupported)
            } else {
                let path = scope_path(scopes, name);
                match kind {
                    NamedKind::Enum | NamedKind::Typedef => Result::Ok(
                        SpecTypeRef { name: SpecTypeName::TypeName(path), semantic: sem, is_const },
                    ),
                    NamedKind::Record => match targs {
                        Option::None => Result::Ok(
                            SpecTypeRef {
                                name: SpecTypeName::Class(path, Seq::empty()),
                                semantic: sem,
                                is_const,
                            },
                        ),
                        Option::Some(args) => match spec_resolve_args(args) {
                            Result::Err(e) => Result::Err(e),
                            Result::Ok(rs) => Result::Ok(
                                SpecTypeRef {
                                    name: SpecTypeName::Class(path, rs),
                                    semantic: sem,
                                    is_const,
                                },
                            ),
                        },
                    },
                }
            }
        },
        _ => Result::Err(ParseError::Unsupported),
    }
}

/// Resolution of a template argument list: the first failing argument's
/// error wins; otherwise the arguments resolve in order.
pub open spec fn spec_resolve_args(args: Seq<SpecTypeNode>) -> Result<
    Seq<SpecTypeRef>,
    ParseError,
>
    decreases args, 2int,
{
    if args.len() == 0 {
        Result::Ok(Seq::empty())
    } else {
        match spec_resolve_args(args.drop_last()) {
            Result::Err(e) => Result::Err(e),
            Result::Ok(rs) => match spec_resolve(args.last()) {
                Result::Err(e) => Result::Err(e),
                Result::Ok(r) => Result::Ok(rs.push(r)),
            },
        }
    }
}

/// An argument list whose prefix already failed resolves to that failure.
pub proof fn lemma_resolve_args_prefix_err(s: Seq<SpecTypeNode>, i: int)
    requires
        0 <= i <= s.len(),
        spec_resolve_args(s.take(i)) is Err,
    ensures
        spec_resolve_args(s) == spec_resolve_args(s.take(i)),
    decreases s.len(),
{
    if i < s.len() {
        assert(s.drop_last().take(i) =~= s.take(i));
        lemma_resolve_args_prefix_err(s.drop_last(), i);
        assert(s.take(s.len() as int) =~= s);
    } else {
        assert(s.take(i) =~= s);
    }
}

/// The view of an executable resolution outcome.
pub open spec fn res_ty_view(r: Result<TypeRef, ParseError>) -> Result<SpecTypeRef, ParseError> {
    match r {
        Result::Ok(t) => Result::Ok(t@),
        Result::Err(e) => Result::Err(e),
    }
}

fn strip_node<'a>(t: &'a TypeNode) -> (r: &'a TypeNode)
    ensures
        r@ == spec_strip(t@),
        *r == *t || decreases_to!(*t => *r),
{
    match t {
        TypeNode::Elaborated { inner } => {
            proof {
                assert(decreases_to!(*t => t->Elaborated_inner));
            }
            &**inner
        },
        _ => t,
    }
}

/// Builds the qualified name path of a named type, failing on an anonymous
/// enclosing scope.
fn build_path(scopes: &Vec<Option<String>>, name: &String) -> (r: Result<Vec<String>, ParseError>)
    ensures
        ({
            let sv = crate::input::opt_strings_view(scopes@);
            match r {
                Result::Ok(path) => scopes_named(sv) && crate::schema::strings_view(path@)
                    == scope_path(sv, name@),
                Result::Err(e) => !scopes_named(sv) && e == ParseError::Unsupported,
            }
        }),
{
    let ghost sv = crate::input::opt_strings_view(scopes@);
    let mut path: Vec<String> = Vec::new();
    let mut i: usize = 0;
    while i < scopes.len()
        invariant
            0 <= i <= scopes.len(),
            sv == crate::input::opt_strings_view(scopes@),
            forall|j: int| 0 <= j < i ==> (#[trigger] sv[j]) is Some,
            crate::schema::strings_view(path@) =~= sv.take(i as int).map_values(
                |o: Option<Seq<char>>|
                    match o {
                        Option::Some(s) => s,
                        Option::None => Seq::<char>::empty(),
                    },
            ),
        decreases scopes.len() - i,
    {
        match &scopes[i] {
            Option::Some(s) => {
                let c = s.clone();
                let ghost p0 = path@;
                path.push(c);
                proof {
                    crate::schema::lemma_seq_view_push(p0, c);
                    assert(sv.take(i + 1) =~= sv.take(i as int).push(sv[i as int]));
                }
            },
            Option::None => {
                proof {
                    assert(sv[i as int] is None);
                }
                return Result::Err(ParseError::Unsupported);
            },
        }
        i = i + 1;
    }
    let mut out = path;
    out.push(name.clone());
    proof {
        assert(sv.take(scopes@.len() as int) =~= sv);
        assert(crate::schema::strings_view(out@) =~= scope_path(sv, name@));
    }
    Result::Ok(out)
}

/// Resolves a type node into a `TypeRef`, exactly as `spec_resolve` states.
pub fn parse_type(t: &TypeNode) -> (r: Result<TypeRef, ParseError>)
    ensures
        res_ty_view(r) == spec_resolve(t@),
    decreases *t, 1int,
{
    let t1 = strip_node(t);
    match t1 {
        TypeNode::Pointer { pointee } => {
            proof {
                assert(decreases_to!(*t1 => t1->Pointer_pointee));
            }
            let q = strip_node(&**pointee);
            match q {
                TypeNode::Pointer { pointee: r2 } => {
                    proof {
                        assert(decreases_to!(*q => q->Pointer_pointee));
                    }
                    let b = strip_node(&**r2);
                    parse_base(b, TypeSemantic::PointerToPointer)
                },
                _ => parse_base(q, TypeSemantic::Pointer),
            }
        },
        TypeNode::Reference { pointee } => {
            proof {
                assert(decreases_to!(*t1 => t1->Reference_pointee));
            }
            let q = strip_node(&**pointee);
            match q {
                TypeNode::Pointer { pointee: r2 } => {
                    proof {
                        assert(decreases_to!(*q => q->Pointer_pointee));
                    }
                    let b = strip_node(&**r2);
                    parse_base(b, TypeSemantic::ReferenceToPointer)
                },
                _ => parse_base(q, TypeSemantic::Reference),
            }
        },
        TypeNode::Array { size, element } => {
            proof {
                assert(decreases_to!(*t1 => t1->Array_element));
            }
            let q = strip_node(&**element);
            match q {
                TypeNode::Pointer { pointee: r2 } => {
                    proof {
                        assert(decreases_to!(*q => q->Pointer_pointee));
                    }
                    let b = strip_node(&**r2);
                    parse_base(b, TypeSemantic::ArrayOfPointer(*size))
                },
                _ => parse_base(q, TypeSemantic::Array(*size)),
            }
        },
        _ => parse_base(t1, TypeSemantic::Value),
    }
}

/// Classifies the base type reached after qualifier stripping, exactly as
/// `spec_base` states.
fn parse_base(b: &TypeNode, sem: TypeSemantic) -> (r: Result<TypeRef, ParseError>)
    ensures
        res_ty_view(r) == spec_base(b@, sem),
    decreases *b, 0int,
{
    match b {
        TypeNode::Ignored => Result::Err(ParseError::Ignored),
        TypeNode::Prim { kind, is_const } => {
            if *kind == PrimKind::Void && sem == TypeSemantic::Value {
                Result::Err(ParseError::Unsupported)
            } else {
                let name = match *kind {
                    PrimKind::Void => TypeName::Void,
                    PrimKind::Bool => TypeName::Bool,
                    PrimKind::Char => TypeName::Char,
                    PrimKind::UChar => TypeName::UChar,
                    PrimKind::WChar => TypeName::WChar,
                    PrimKind::Short => TypeName::Short,
                    PrimKind::UShort => TypeName::UShort,
                    PrimKind::Int => TypeName::Int,
                    PrimKind::UInt => TypeName::UInt,
                    PrimKind::Long => TypeName::Long,
                    PrimKind::ULong => TypeName::ULong,
                    PrimKind::LongLong => TypeName::LongLong,
                    PrimKind::ULongLong => TypeName::ULongLong,
                    PrimKind::Float => TypeName::Float,
                    PrimKind::Double => TypeName::Double,
                };
                Result::Ok(TypeRef { name, semantic: sem, is_const: *is_const })
            }
        },
        TypeNode::Named { kind, name, scopes, targs, is_const } => {
            let path = match build_path(scopes, name) {
                Result::Ok(p) => p,
                Result::Err(e) => {
                    return Result::Err(e);
                },
            };
            match kind {
                NamedKind::Enum | NamedKind::Typedef => Result::Ok(
                    TypeRef { name: TypeName::TypeName(path), semantic: sem, is_const: *is_const },
                ),
                NamedKind::Record => {
                    match targs {
                        Option::None => Result::Ok(
                            TypeRef {
                                name: TypeName::Class(path, Vec::new()),
                                semantic: sem,
                                is_const: *is_const,
                            },
                        ),
                        Option::Some(args) => {
                            let ghost argsv = crate::input::type_nodes_view(args@);
                            proof {
                                lemma_type_nodes_view_len(args@);
                            }
                            let mut rs: Vec<TypeRef> = Vec::new();
                            let mut i: usize = 0;
                            while i < args.len()
                                invariant
                                    0 <= i <= args.len(),
                                    *b is Named,
                                    b->Named_kind == NamedKind::Record,
                                    b->Named_targs == Option::Some(*args),
                                    scopes_named(
                                        crate::input::opt_strings_view(b->Named_scopes@),
                                    ),
                                    argsv == crate::input::type_nodes_view(args@),
                                    argsv.len() == args@.len(),
                                    spec_resolve_args(argsv.take(i as int)) == Result::<
                                        Seq<SpecTypeRef>,
                                        ParseError,
                                    >::Ok(crate::schema::type_refs_view(rs@)),
                                decreases args.len() - i,
                            {
                                proof {
                                    assert(decreases_to!(*b => b->Named_targs));
                                    assert(decreases_to!(b->Named_targs => b->Named_targs->0));
                                    assert(decreases_to!(*args => args@));
                                    assert(decreases_to!(args@ => args@[i as int]));
                                    assert(decreases_to!(*b => args@[i as int]));
                                    lemma_type_nodes_view_index(args@, i as int);
                                }
                                let rr = parse_type(&args[i]);
                                proof {
                                    assert(argsv.take(i + 1).drop_last() =~= argsv.take(i as int));
                                    assert(argsv.take(i + 1).last() == argsv[i as int]);
                                }
                                match rr {
                                    Result::Ok(tr) => {
                                        let ghost rs0 = rs@;
                                        rs.push(tr);
                                        proof {
                                            lemma_type_refs_view_push(rs0, tr);
                                        }
                                    },
                                    Result::Err(e) => {
                                        proof {
                                            lemma_resolve_args_prefix_err(argsv, i + 1);
                                        }
                                        return Result::Err(e);
                                    },
                                }
                                i = i + 1;
                            }
                            proof {
                                assert(argsv.take(args@.len() as int) =~= argsv);
                            }
                            Result::Ok(
                                TypeRef {
                                    name: TypeName::Class(path, rs),
                                    semantic: sem,
                                    is_const: *is_const,
                                },
                            )
                        },
                    }
                },
            }
        },
        _ => Result::Err(ParseError::Unsupported),
    }
}

/// The view of a node list has the list's length.
pub proof fn lemma_type_nodes_view_len(s: Seq<TypeNode>)
    ensures
        crate::input::type_nodes_view(s).len() == s.len(),
    decreases s.len(),
{
    if s.len() > 0 {
        lemma_type_nodes_view_len(s.drop_last());
    }
}

/// The view of a node list indexes pointwise.
pub proof fn lemma_type_nodes_view_index(s: Seq<TypeNode>, i: int)
    requires
        0 <= i < s.len(),
    ensures
        crate::input::type_nodes_view(s)[i] == crate::input::type_node_view(s[i]),
    decreases s.len(),
{
    lemma_type_nodes_view_len(s.drop_last());
    if i < s.len() - 1 {
        lemma_type_nodes_view_index(s.drop_last(), i);
    }
}

/// The view of a resolved-type list commutes with appending.
pub proof fn lemma_type_refs_view_push(s: Seq<TypeRef>, x: TypeRef)
    ensures
        crate::schema::type_refs_view(s.push(x)) == crate::schema::type_refs_view(s).push(x@),
{
    assert(s.push(x).drop_last() =~= s);
    assert(s.push(x).last() == x);
}

/// Duplicates a resolved type; the copy has the same view.
pub fn clone_type_ref(t: &TypeRef) -> (r: TypeRef)
    ensures
        r@ == t@,
    decreases *t, 1int,
{
    TypeRef { name: clone_type_name(&t.name), semantic: t.semantic, is_const: t.is_const }
}

fn clone_strings(v: &Vec<String>) -> (r: Vec<String>)
    ensures
        crate::schema::strings_view(r@) =~= crate::schema::strings_view(v@),
{
    let mut r: Vec<String> = Vec::new();
    let mut i: usize = 0;
    while i < v.len()
        invariant
            0 <= i <= v.len(),
            crate::schema::strings_view(r@) =~= crate::schema::strings_view(v@.take(i as int)),
        decreases v.len() - i,
    {
        let c = v[i].clone();
        let ghost r0 = r@;
        r.push(c);
        proof {
            crate::schema::lemma_seq_view_push(r0, c);
            assert(v@.take(i + 1) =~= v@.take(i as int).push(v@[i as int]));
            crate::schema::lemma_seq_view_push(v@.take(i as int), v@[i as int]);
        }
        i = i + 1;
    }
    proof {
        assert(v@.take(v@.len() as int) =~= v@);
    }
    r
}

fn clone_type_name(n: &TypeName) -> (r: TypeName)
    ensures
        crate::schema::type_name_view(r) == crate::schema::type_name_view(*n),
    decreases *n, 0int,
{
    match n {
        TypeName::Void => TypeName::Void,
        TypeName::Bool => TypeName::Bool,
        TypeName::Char => TypeName::Char,
        TypeName::UChar => TypeName::UChar,
        TypeName::WChar => TypeName::WChar,
        TypeName::Short => TypeName::Short,
        TypeName::UShort => TypeName::UShort,
        TypeName::Int => TypeName::Int,
        TypeName::UInt => TypeName::UInt,
        TypeName::Long => TypeName::Long,
        TypeName::ULong => TypeName::ULong,
        TypeName::LongLong => TypeName::LongLong,
        TypeName::ULongLong => TypeName::ULongLong,
        TypeName::Float => TypeName::Float,
        TypeName::Double => TypeName::Double,
        TypeName::TypeName(path) => TypeName::TypeName(clone_strings(path)),
        TypeName::Class(path, args) => {
            let p = clone_strings(path);
            let mut rs: Vec<TypeRef> = Vec::new();
            let mut i: usize = 0;
            while i < args.len()
                invariant
                    0 <= i <= args.len(),
                    *n is Class,
                    n->Class_1 == *args,
                    crate::schema::type_refs_view(rs@) =~= crate::schema::type_refs_view(
                        args@.take(i as int),
                    ),
                decreases args.len() - i,
            {
                proof {
                    assert(decreases_to!(*n => n->Class_1));
                    assert(decreases_to!(*args => args@));
                    assert(decreases_to!(args@ => args@[i as int]));
                    assert(decreases_to!(*n => args@[i as int]));
                }
                let c = clone_type_ref(&args[i]);
                let ghost rs0 = rs@;
                rs.push(c);
                proof {
                    lemma_type_refs_view_push(rs0, c);
                    assert(args@.take(i + 1).drop_last() =~= args@.take(i as int));
                    assert(args@.take(i + 1).last() == args@[i as int]);
                    lemma_type_refs_view_push(args@.take(i as int), args@[i as int]);
                    assert(args@.take(i as int).push(args@[i as int]) =~= args@.take(i + 1));
                }
                i = i + 1;
            }
            proof {
                assert(args@.take(args@.len() as int) =~= args@);
            }
            TypeName::Class(p, rs)
        },
    }
}

} // verus!
