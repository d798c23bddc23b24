//! The declaration walker: turns one translation unit's root namespace
//! declaration into a `Namespace`, dispatching every child declaration by
//! kind, and dropping what the supported subset does not cover.

use vstd::prelude::*;
use vstd::pervasive::{arbitrary, unreached};
use vstd::string::StringExecFns;

use crate::input::{
    opt_expr_view, Decl, DeclKind, Expr, SpecDecl, SpecDeclKind, SpecEnumerator, SpecExpr,
    SpecParamDecl, SpecTypeNode, Storage, TypeNode, Visibility,
};
use crate::paths::{loc_skipped, spec_loc_skipped};
use crate::report::{diags_view, Diag, SpecDiag};
use crate::resolve::{clone_type_ref, parse_type, spec_resolve, ParseError};
use crate::schema::{
    lemma_seq_view_index, lemma_seq_view_len, lemma_seq_view_push, seq_view, Access, Const, Enum,
    Function, FunctionSemantic, Param, SpecConst, SpecEnum, SpecFunction, SpecParam, SpecTypeName,
    SpecTypeRef, SpecValue, SpecVariant, TypeAlias, TypeRef, Value, Variant,
};
use crate::value::{parse_value, spec_eval_opt};

verus! {

// ------------------------------------------------------------------
// Well-formedness of the input tree: what the compiler trusts the upstream
// engine to guarantee. Breaking it is a structural invariant violation.
// ------------------------------------------------------------------

/// The five signed integral primitive tags of the schema.
pub open spec fn int_name_signed(n: SpecTypeName) -> bool {
    ||| n == SpecTypeName::Char
    ||| n == SpecTypeName::Short
    ||| n == SpecTypeName::Int
    ||| n == SpecTypeName::Long
    ||| n == SpecTypeName::LongLong
}

/// The five unsigned integral primitive tags of the schema.
pub open spec fn int_name_unsigned(n: SpecTypeName) -> bool {
    ||| n == SpecTypeName::UChar
    ||| n == SpecTypeName::UShort
    ||| n == SpecTypeName::UInt
    ||| n == SpecTypeName::ULong
    ||| n == SpecTypeName::ULongLong
}

/// An enum's underlying type must resolve to an integral primitive.
pub open spec fn enum_wf(underlying: SpecTypeNode) -> bool {
    match spec_resolve(underlying) {
        Result::Ok(t) => int_name_signed(t.name) || int_name_unsigned(t.name),
        Result::Err(_) => false,
    }
}

/// The declared type of the initializer expression, where it resolves.
pub open spec fn init_ty_ok(init: Option<SpecExpr>) -> bool {
    match init {
        Option::Some(e) => match e.ty {
            Option::Some(t) => spec_resolve(t) is Ok,
            Option::None => false,
        },
        Option::None => false,
    }
}

/// A const variable with an evaluable initializer must get a type: its
/// declared type resolves, or the initializer's own type does.
pub open spec fn var_const_wf(ty: SpecTypeNode, init: Option<SpecExpr>) -> bool {
    (spec_eval_opt(init).0 is Some) ==> (spec_resolve(ty) is Ok || init_ty_ok(init))
}

/// Well-formedness of one declaration and everything below it.
pub open spec fn decl_wf(d: SpecDecl) -> bool
    decreases d, 1int,
{
    match d.kind {
        SpecDeclKind::EnumDecl { underlying, .. } => enum_wf(underlying),
        SpecDeclKind::Var { ty, const_qualified, init, .. } => const_qualified ==> var_const_wf(
            ty,
            init,
        ),
        SpecDeclKind::ClassDecl { members, .. } => decls_wf_members(members),
        SpecDeclKind::NamespaceDecl { children, .. } => decls_wf(children),
        _ => true,
    }
}

pub open spec fn decls_wf(s: Seq<SpecDecl>) -> bool
    decreases s, 2int,
{
    s.len() == 0 || (decls_wf(s.drop_last()) && decl_wf(s.last()))
}

/// Class members additionally carry an accessibility.
pub open spec fn decls_wf_members(s: Seq<SpecDecl>) -> bool
    decreases s, 2int,
{
    s.len() == 0 || (decls_wf_members(s.drop_last()) && decl_wf(s.last()) && s.last().access
        is Some)
}

pub proof fn lemma_decls_wf_index(s: Seq<SpecDecl>, i: int)
    requires
        decls_wf(s),
        0 <= i < s.len(),
    ensures
        decl_wf(s[i]),
    decreases s.len(),
{
    if i < s.len() - 1 {
        lemma_decls_wf_index(s.drop_last(), i);
    }
}

pub proof fn lemma_decls_wf_members_index(s: Seq<SpecDecl>, i: int)
    requires
        decls_wf_members(s),
        0 <= i < s.len(),
    ensures
        decl_wf(s[i]),
        s[i].access is Some,
    decreases s.len(),
{
    if i < s.len() - 1 {
        lemma_decls_wf_members_index(s.drop_last(), i);
    }
}

/// The view of a declaration list has the list's length.
pub proof fn lemma_decls_view_len(s: Seq<Decl>)
    ensures
        crate::input::decls_view(s).len() == s.len(),
    decreases s.len(),
{
    if s.len() > 0 {
        lemma_decls_view_len(s.drop_last());
    }
}

/// The view of a declaration list indexes pointwise.
pub proof fn lemma_decls_view_index(s: Seq<Decl>, i: int)
    requires
        0 <= i < s.len(),
    ensures
        crate::input::decls_view(s)[i] == crate::input::decl_view(s[i]),
    decreases s.len(),
{
    lemma_decls_view_len(s.drop_last());
    if i < s.len() - 1 {
        lemma_decls_view_index(s.drop_last(), i);
    }
}

// ------------------------------------------------------------------
// Enum parsing.
// ------------------------------------------------------------------

/// An anonymous enum carries the reserved sentinel name `const`.
pub open spec fn spec_enum_name(name: Option<Seq<char>>) -> Seq<char> {
    match name {
        Option::Some(n) => n,
        Option::None => "const"@,
    }
}

pub open spec fn resolved_or_arbitrary(t: SpecTypeNode) -> SpecTypeRef {
    match spec_resolve(t) {
        Result::Ok(u) => u,
        Result::Err(_) => arbitrary(),
    }
}

/// One variant: its value is read unsigned or signed after the underlying
/// type's signedness.
pub open spec fn spec_variant_of(u: SpecTypeRef, e: SpecEnumerator) -> SpecVariant {
    SpecVariant {
        name: e.name,
        value: if int_name_unsigned(u.name) {
            SpecValue::UInt(e.unsigned_value)
        } else {
            SpecValue::Int(e.signed_value)
        },
    }
}

pub open spec fn spec_variants_of(u: SpecTypeRef, es: Seq<SpecEnumerator>) -> Seq<SpecVariant>
    decreases es.len(),
{
    if es.len() == 0 {
        Seq::empty()
    } else {
        spec_variants_of(u, es.drop_last()).push(spec_variant_of(u, es.last()))
    }
}

/// The enum an enum declaration parses to.
pub open spec fn spec_parse_enum(
    name: Option<Seq<char>>,
    underlying: SpecTypeNode,
    es: Seq<SpecEnumerator>,
) -> SpecEnum {
    let u = resolved_or_arbitrary(underlying);
    SpecEnum { name: spec_enum_name(name), underlying: u, variants: spec_variants_of(u, es) }
}

fn type_ref_is_unsigned(t: &TypeRef) -> (b: bool)
    ensures
        b == int_name_unsigned(t@.name),
{
    match &t.name {
        crate::schema::TypeName::UChar => true,
        crate::schema::TypeName::UShort => true,
        crate::schema::TypeName::UInt => true,
        crate::schema::TypeName::ULong => true,
        crate::schema::TypeName::ULongLong => true,
        _ => false,
    }
}

/// Parses an enum declaration, exactly as `spec_parse_enum` states. The
/// underlying type is required to be integral: anything else is a
/// structural invariant violation, not a recoverable condition.
pub fn parse_enum(d: &Decl) -> (en: Enum)
    requires
        d@.kind is EnumDecl,
        enum_wf(d@.kind->EnumDecl_underlying),
    ensures
        en@ == spec_parse_enum(
            d@.kind->EnumDecl_name,
            d@.kind->EnumDecl_underlying,
            d@.kind->EnumDecl_enumerators,
        ),
{
    match &d.kind {
        DeclKind::EnumDecl { name, underlying, enumerators } => {
            let u = match parse_type(underlying) {
                Result::Ok(u) => u,
                Result::Err(_) => unreached(),
            };
            let nm: String = match name {
                Option::Some(n) => n.clone(),
                Option::None => String::from_str("const"),
            };
            let unsigned = type_ref_is_unsigned(&u);
            let ghost uv = u@;
            let ghost esv = seq_view(enumerators@);
            proof {
                lemma_seq_view_len(enumerators@);
            }
            let mut variants: Vec<Variant> = Vec::new();
            let mut i: usize = 0;
            proof {
                assert(esv.take(0int) =~= Seq::<SpecEnumerator>::empty());
            }
            while i < enumerators.len()
                invariant
                    i <= enumerators.len(),
                    esv == seq_view(enumerators@),
                    esv.len() == enumerators@.len(),
                    unsigned == int_name_unsigned(uv.name),
                    seq_view(variants@) == spec_variants_of(uv, esv.take(i as int)),
                decreases enumerators.len() - i,
            {
                proof {
                    lemma_seq_view_index(enumerators@, i as int);
                }
                let e = &enumerators[i];
                let v = Variant {
                    name: e.name.clone(),
                    value: if unsigned {
                        Value::UInt(e.unsigned_value)
                    } else {
                        Value::Int(e.signed_value)
                    },
                };
                let ghost v0 = variants@;
                variants.push(v);
                proof {
                    lemma_seq_view_push(v0, v);
                    assert(esv.take(i + 1).drop_last() =~= esv.take(i as int));
                    assert(esv.take(i + 1).last() == esv[i as int]);
                }
                i = i + 1;
            }
            proof {
                assert(esv.take(enumerators@.len() as int) =~= esv);
            }
            Enum { name: nm, underlying: u, variants }
        },
        _ => unreached(),
    }
}

// ------------------------------------------------------------------
// Sentinel-enum unpacking: the variants of an enum named `const` become
// constants of the enclosing scope, each typed by the enum's underlying
// type.
// ------------------------------------------------------------------

pub open spec fn consts_of_variants(u: SpecTypeRef, vs: Seq<SpecVariant>) -> Seq<SpecConst>
    decreases vs.len(),
{
    if vs.len() == 0 {
        Seq::empty()
    } else {
        consts_of_variants(u, vs.drop_last()).push(
            SpecConst { ty: u, name: vs.last().name, value: vs.last().value },
        )
    }
}

/// Appends one constant per variant of a sentinel enum to `consts`.
pub fn push_enum_consts(consts: &mut Vec<Const>, en: Enum)
    ensures
        seq_view(final(consts)@) == seq_view(old(consts)@) + consts_of_variants(
            en@.underlying,
            en@.variants,
        ),
{
    let ghost env = en@;
    let Enum { name: _, underlying, variants } = en;
    let ghost vs0 = variants@;
    let ghost vsv = seq_view(vs0);
    let vlen = variants.len();
    proof {
        assert(vs0.len() == vlen as int);
        lemma_seq_view_len(vs0);
        assert(vsv == env.variants);
    }
    let mut variants = variants;
    let mut k: usize = 0;
    proof {
        assert(vsv.take(0int) =~= Seq::<SpecVariant>::empty());
        assert(seq_view(consts@) + consts_of_variants(env.underlying, vsv.take(0int)) =~= seq_view(
            consts@,
        ));
    }
    while variants.len() > 0
        invariant
            vsv == seq_view(vs0),
            vsv.len() == vs0.len(),
            vs0.len() <= usize::MAX,
            k <= vs0.len(),
            variants@ == vs0.skip(k as int),
            underlying@ == env.underlying,
            seq_view(consts@) == seq_view(old(consts)@) + consts_of_variants(
                env.underlying,
                vsv.take(k as int),
            ),
        decreases variants.len(),
    {
        proof {
            lemma_seq_view_index(vs0, k as int);
        }
        let v = variants.remove(0);
        assert(v == vs0[k as int]);
        let ty = clone_type_ref(&underlying);
        let c = Const { ty, name: v.name, value: v.value };
        let ghost c0 = consts@;
        consts.push(c);
        proof {
            lemma_seq_view_push(c0, c);
            assert(vsv.take(k + 1).drop_last() =~= vsv.take(k as int));
            assert(vsv.take(k + 1).last() == vsv[k as int]);
            assert(variants@ =~= vs0.skip(k + 1));
        }
        k = k + 1;
    }
    proof {
        assert(vsv.take(vs0.len() as int) =~= vsv);
    }
}

// ------------------------------------------------------------------
// Alias parsing.
// ------------------------------------------------------------------

/// The alias a typedef declaration parses to: present when the underlying
/// type resolves, one diagnostic when it is unsupported, silence when it is
/// deliberately ignored.
pub open spec fn spec_parse_alias(name: Seq<char>, underlying: SpecTypeNode) -> (
    Option<crate::schema::SpecTypeAlias>,
    Seq<SpecDiag>,
) {
    match spec_resolve(underlying) {
        Result::Ok(t) => (
            Option::Some(crate::schema::SpecTypeAlias { name, ty: t }),
            Seq::empty(),
        ),
        Result::Err(ParseError::Unsupported) => (
            Option::None,
            seq![SpecDiag::UnsupportedAlias(name)],
        ),
        Result::Err(ParseError::Ignored) => (Option::None, Seq::empty()),
    }
}

/// Parses a typedef declaration, exactly as `spec_parse_alias` states.
pub fn parse_alias(d: &Decl, diags: &mut Vec<Diag>) -> (r: Option<TypeAlias>)
    requires
        d@.kind is AliasDecl,
    ensures
        ({
            let (a, sd) = spec_parse_alias(d@.kind->AliasDecl_name, d@.kind->AliasDecl_underlying);
            &&& match (r, a) {
                (Option::Some(x), Option::Some(y)) => x@ == y,
                (Option::None, Option::None) => true,
                _ => false,
            }
            &&& diags_view(final(diags)@) == diags_view(old(diags)@) + sd
        }),
{
    let ghost d0 = diags@;
    match &d.kind {
        DeclKind::AliasDecl { name, underlying } => {
            match parse_type(underlying) {
                Result::Ok(t) => {
                    proof {
                        assert(diags_view(diags@) =~= diags_view(d0) + Seq::<SpecDiag>::empty());
                    }
                    Option::Some(TypeAlias { name: name.clone(), ty: t })
                },
                Result::Err(ParseError::Unsupported) => {
                    let dg = Diag::UnsupportedAlias(name.clone());
                    proof {
                        lemma_seq_view_push(diags@, dg);
                    }
                    diags.push(dg);
                    proof {
                        assert(diags_view(diags@) =~= diags_view(d0) + seq![
                            SpecDiag::UnsupportedAlias(name@),
                        ]);
                    }
                    Option::None
                },
                Result::Err(ParseError::Ignored) => {
                    proof {
                        assert(diags_view(diags@) =~= diags_view(d0) + Seq::<SpecDiag>::empty());
                    }
                    Option::None
                },
            }
        },
        _ => unreached(),
    }
}

// ------------------------------------------------------------------
// Function parsing.
// ------------------------------------------------------------------

/// The parameter types, resolved in declaration order; the first failing
/// parameter's error wins.
pub open spec fn spec_param_tys(ps: Seq<SpecParamDecl>) -> Result<Seq<SpecTypeRef>, ParseError>
    decreases ps.len(),
{
    if ps.len() == 0 {
        Result::Ok(Seq::empty())
    } else {
        match spec_param_tys(ps.drop_last()) {
            Result::Err(e) => Result::Err(e),
            Result::Ok(tys) => match spec_resolve(ps.last().ty) {
                Result::Err(e) => Result::Err(e),
                Result::Ok(t) => Result::Ok(tys.push(t)),
            },
        }
    }
}

/// A parameter list whose prefix already failed resolves to that failure.
pub proof fn lemma_param_tys_prefix_err(s: Seq<SpecParamDecl>, i: int)
    requires
        0 <= i <= s.len(),
        spec_param_tys(s.take(i)) is Err,
    ensures
        spec_param_tys(s) == spec_param_tys(s.take(i)),
    decreases s.len(),
{
    if i < s.len() {
        assert(s.drop_last().take(i) =~= s.take(i));
        lemma_param_tys_prefix_err(s.drop_last(), i);
        assert(s.take(s.len() as int) =~= s);
    } else {
        assert(s.take(i) =~= s);
    }
}

/// The schema parameters built from the declarations and their resolved
/// types, each with its evaluated default, if any.
pub open spec fn spec_build_params(ps: Seq<SpecParamDecl>, tys: Seq<SpecTypeRef>) -> Seq<SpecParam>
    decreases ps.len(),
{
    if ps.len() == 0 {
        Seq::empty()
    } else {
        spec_build_params(ps.drop_last(), tys.drop_last()).push(
            SpecParam {
                ty: tys.last(),
                name: ps.last().name,
                default: spec_eval_opt(ps.last().default).0,
            },
        )
    }
}

/// The diagnostics the default-value evaluations emit, in parameter order.
pub open spec fn spec_param_diags(ps: Seq<SpecParamDecl>) -> Seq<SpecDiag>
    decreases ps.len(),
{
    if ps.len() == 0 {
        Seq::empty()
    } else {
        spec_param_diags(ps.drop_last()) + spec_eval_opt(ps.last().default).1
    }
}

/// A declared `void` result, which stands for no return type.
pub open spec fn is_void_node(t: SpecTypeNode) -> bool {
    match t {
        SpecTypeNode::Prim { kind, .. } => kind == crate::input::PrimKind::Void,
        _ => false,
    }
}

/// How a function is invoked, from its declaration flags.
pub open spec fn spec_fn_semantic(is_virtual: bool, is_static: bool, is_method: bool)
    -> FunctionSemantic {
    if is_virtual {
        FunctionSemantic::Virtual
    } else if is_static {
        FunctionSemantic::Static
    } else if is_method {
        FunctionSemantic::Method
    } else {
        FunctionSemantic::Free
    }
}

/// Schema accessibility: protected only where the engine says so; private
/// was filtered out before this point.
pub open spec fn spec_access(a: Option<Visibility>) -> Access {
    if a == Option::Some(Visibility::Protected) {
        Access::Protected
    } else {
        Access::Public
    }
}

/// The function a function or method declaration parses to, with the
/// diagnostics emitted: a function with any unresolvable parameter or
/// return type is dropped whole, with one diagnostic if the failure was
/// `Unsupported`.
pub open spec fn spec_parse_function(d: SpecDecl) -> (Option<SpecFunction>, Seq<SpecDiag>) {
    match d.kind {
        SpecDeclKind::FunctionDecl {
            name,
            is_method,
            params,
            ret,
            is_virtual,
            is_static,
            is_const,
        } => {
            let ps = match params {
                Option::Some(x) => x,
                Option::None => Seq::empty(),
            };
            match spec_param_tys(ps) {
                Result::Err(ParseError::Unsupported) => (
                    Option::None,
                    seq![SpecDiag::UnsupportedParam(name)],
                ),
                Result::Err(ParseError::Ignored) => (Option::None, Seq::empty()),
                Result::Ok(tys) => {
                    let fps = spec_build_params(ps, tys);
                    let pd = spec_param_diags(ps);
                    let sem = spec_fn_semantic(is_virtual, is_static, is_method);
                    let acc = spec_access(d.access);
                    if is_void_node(ret) {
                        (
                            Option::Some(
                                SpecFunction {
                                    name,
                                    params: fps,
                                    return_ty: Option::None,
                                    semantic: sem,
                                    access: acc,
                                    is_const,
                                },
                            ),
                            pd,
                        )
                    } else {
                        match spec_resolve(ret) {
                            Result::Ok(rt) => (
                                Option::Some(
                                    SpecFunction {
                                        name,
                                        params: fps,
                                        return_ty: Option::Some(rt),
                                        semantic: sem,
                                        access: acc,
                                        is_const,
                                    },
                                ),
                                pd,
                            ),
                            Result::Err(ParseError::Unsupported) => (
                                Option::None,
                                pd + seq![SpecDiag::UnsupportedReturn(name)],
                            ),
                            Result::Err(ParseError::Ignored) => (Option::None, pd),
                        }
                    }
                },
            }
        },
        _ => (Option::None, Seq::empty()),
    }
}

/// Parses a function or method declaration, exactly as
/// `spec_parse_function` states, appending the diagnostics it emits.
pub fn parse_function(d: &Decl, diags: &mut Vec<Diag>) -> (r: Option<Function>)
    requires
        d@.kind is FunctionDecl,
    ensures
        ({
            let (f, sd) = spec_parse_function(d@);
            &&& match (r, f) {
                (Option::Some(x), Option::Some(y)) => x@ == y,
                (Option::None, Option::None) => true,
                _ => false,
            }
            &&& diags_view(final(diags)@) == diags_view(old(diags)@) + sd
        }),
{
    let ghost dg0 = diags@;
    match &d.kind {
        DeclKind::FunctionDecl { name, is_method, params, ret, is_virtual, is_static, is_const } => {
            let ghost psv: Seq<SpecParamDecl> = match d@.kind->FunctionDecl_params {
                Option::Some(x) => x,
                Option::None => Seq::empty(),
            };
            // Pass one: resolve every parameter type in order; any failure
            // drops the whole function.
            let mut ptys: Vec<TypeRef> = Vec::new();
            match params {
                Option::Some(ps) => {
                    proof {
                        lemma_seq_view_len(ps@);
                        assert(psv == seq_view(ps@));
                        assert(psv.take(0int) =~= Seq::<SpecParamDecl>::empty());
                    }
                    let mut i: usize = 0;
                    while i < ps.len()
                        invariant
                            i <= ps.len(),
                            psv == seq_view(ps@),
                            psv.len() == ps@.len(),
                            d@.kind is FunctionDecl,
                            d@.kind->FunctionDecl_params == Option::Some(psv),
                            d@.kind->FunctionDecl_name == name@,
                            diags@ == dg0,
                            dg0 == old(diags)@,
                            ptys@.len() == i,
                            spec_param_tys(psv.take(i as int)) == Result::<
                                Seq<SpecTypeRef>,
                                ParseError,
                            >::Ok(crate::schema::type_refs_view(ptys@)),
                        decreases ps.len() - i,
                    {
                        proof {
                            lemma_seq_view_index(ps@, i as int);
                        }
                        let rr = parse_type(&ps[i].ty);
                        proof {
                            assert(psv.take(i + 1).drop_last() =~= psv.take(i as int));
                            assert(psv.take(i + 1).last() == psv[i as int]);
                        }
                        match rr {
                            Result::Ok(t) => {
                                let ghost t0 = ptys@;
                                ptys.push(t);
                                proof {
                                    crate::resolve::lemma_type_refs_view_push(t0, t);
                                }
                            },
                            Result::Err(e) => {
                                proof {
                                    lemma_param_tys_prefix_err(psv, i + 1);
                                }
                                if e == ParseError::Unsupported {
                                    let dg = Diag::UnsupportedParam(name.clone());
                                    proof {
                                        lemma_seq_view_push(diags@, dg);
                                    }
                                    diags.push(dg);
                                    proof {
                                        assert(diags_view(diags@) =~= diags_view(dg0) + seq![
                                            SpecDiag::UnsupportedParam(name@),
                                        ]);
                                    }
                                } else {
                                    proof {
                                        assert(diags_view(diags@) =~= diags_view(dg0)
                                            + Seq::<SpecDiag>::empty());
                                    }
                                }
                                return Option::None;
                            },
                        }
                        i = i + 1;
                    }
                    proof {
                        assert(psv.take(ps@.len() as int) =~= psv);
                    }
                },
                Option::None => {
                    proof {
                        assert(psv.take(0int) =~= psv);
                        assert(crate::schema::type_refs_view(ptys@)
                            =~= Seq::<SpecTypeRef>::empty());
                    }
                },
            }
            let ghost tysv = crate::schema::type_refs_view(ptys@);
            // Pass two: build the parameters, evaluating defaults.
            let mut fparams: Vec<Param> = Vec::new();
            match params {
                Option::Some(ps) => {
                    let ghost pt0 = ptys@;
                    proof {
                        lemma_type_refs_view_index_len(pt0);
                    }
                    let mut ptys = ptys;
                    let mut i: usize = 0;
                    proof {
                        assert(psv.take(0int) =~= Seq::<SpecParamDecl>::empty());
                        assert(tysv.take(0int) =~= Seq::<SpecTypeRef>::empty());
                        assert(spec_param_diags(psv.take(0int)) =~= Seq::<SpecDiag>::empty());
                        assert(diags_view(diags@) =~= diags_view(dg0) + Seq::<SpecDiag>::empty());
                        crate::resolve::lemma_type_nodes_view_len(Seq::empty());
                    }
                    while i < ps.len()
                        invariant
                            i <= ps.len(),
                            psv == seq_view(ps@),
                            psv.len() == ps@.len(),
                            tysv == crate::schema::type_refs_view(pt0),
                            tysv.len() == psv.len(),
                            pt0.len() == psv.len(),
                            dg0 == old(diags)@,
                            d@.kind is FunctionDecl,
                            d@.kind->FunctionDecl_params == Option::Some(psv),
                            d@.kind->FunctionDecl_name == name@,
                            ptys@ == pt0.skip(i as int),
                            seq_view(fparams@) == spec_build_params(
                                psv.take(i as int),
                                tysv.take(i as int),
                            ),
                            diags_view(diags@) == diags_view(dg0) + spec_param_diags(
                                psv.take(i as int),
                            ),
                        decreases ps.len() - i,
                    {
                        proof {
                            lemma_seq_view_index(ps@, i as int);
                            lemma_type_refs_view_index(pt0, i as int);
                        }
                        let t = ptys.remove(0);
                        assert(t == pt0[i as int]);
                        let def = match &ps[i].default {
                            Option::Some(e) => parse_value(e, diags),
                            Option::None => Option::None,
                        };
                        let p = Param { ty: t, name: ps[i].name.clone(), default: def };
                        let ghost f0 = fparams@;
                        fparams.push(p);
                        proof {
                            lemma_seq_view_push(f0, p);
                            assert(psv.take(i + 1).drop_last() =~= psv.take(i as int));
                            assert(psv.take(i + 1).last() == psv[i as int]);
                            assert(tysv.take(i + 1).drop_last() =~= tysv.take(i as int));
                            assert(tysv.take(i + 1).last() == tysv[i as int]);
                            assert(ptys@ =~= pt0.skip(i + 1));
                        }
                        i = i + 1;
                    }
                    proof {
                        assert(psv.take(ps@.len() as int) =~= psv);
                        assert(tysv.take(ps@.len() as int) =~= tysv);
                    }
                },
                Option::None => {
                    proof {
                        assert(spec_build_params(psv, tysv) =~= Seq::<SpecParam>::empty());
                        assert(seq_view(fparams@) =~= Seq::<SpecParam>::empty());
                        assert(spec_param_diags(psv) =~= Seq::<SpecDiag>::empty());
                        assert(diags_view(diags@) =~= diags_view(dg0) + spec_param_diags(psv));
                    }
                },
            }
            // Return type: absent stands for void.
            let is_void = match ret {
                TypeNode::Prim { kind, .. } => *kind == crate::input::PrimKind::Void,
                _ => false,
            };
            let return_ty: Option<TypeRef> = if is_void {
                Option::None
            } else {
                match parse_type(ret) {
                    Result::Ok(t) => Option::Some(t),
                    Result::Err(ParseError::Unsupported) => {
                        let dg = Diag::UnsupportedReturn(name.clone());
                        proof {
                            lemma_seq_view_push(diags@, dg);
                        }
                        diags.push(dg);
                        proof {
                            assert(diags_view(diags@) =~= diags_view(dg0) + (spec_param_diags(psv)
                                + seq![SpecDiag::UnsupportedReturn(name@)]));
                        }
                        return Option::None;
                    },
                    Result::Err(ParseError::Ignored) => {
                        return Option::None;
                    },
                }
            };
            let semantic = if *is_virtual {
                FunctionSemantic::Virtual
            } else if *is_static {
                FunctionSemantic::Static
            } else if *is_method {
                FunctionSemantic::Method
            } else {
                FunctionSemantic::Free
            };
            let access = match &d.access {
                Option::Some(Visibility::Protected) => Access::Protected,
                _ => Access::Public,
            };
            Option::Some(
                Function {
                    name: name.clone(),
                    params: fparams,
                    return_ty,
                    semantic,
                    access,
                    is_const: *is_const,
                },
            )
        },
        _ => unreached(),
    }
}

/// The view of a resolved-type list indexes pointwise.
pub proof fn lemma_type_refs_view_index(s: Seq<TypeRef>, i: int)
    requires
        0 <= i < s.len(),
    ensures
        crate::schema::type_refs_view(s).len() == s.len(),
        crate::schema::type_refs_view(s)[i] == crate::schema::type_ref_view(s[i]),
    decreases s.len(),
{
    if s.len() > 0 {
        lemma_type_refs_view_index_len(s.drop_last());
        if i < s.len() - 1 {
            lemma_type_refs_view_index(s.drop_last(), i);
        }
    }
}

proof fn lemma_type_refs_view_index_len(s: Seq<TypeRef>)
    ensures
        crate::schema::type_refs_view(s).len() == s.len(),
    decreases s.len(),
{
    if s.len() > 0 {
        lemma_type_refs_view_index_len(s.drop_last());
    }
}

// ------------------------------------------------------------------
// Constants from const-qualified variables.
// ------------------------------------------------------------------

/// The type a constant gets: the declared type where it resolves, else the
/// type of the initializer expression.
pub open spec fn spec_const_ty(ty: SpecTypeNode, init: Option<SpecExpr>) -> SpecTypeRef {
    match spec_resolve(ty) {
        Result::Ok(t) => t,
        Result::Err(_) => match init {
            Option::Some(e) => match e.ty {
                Option::Some(t2) => match spec_resolve(t2) {
                    Result::Ok(t) => t,
                    Result::Err(_) => arbitrary(),
                },
                Option::None => arbitrary(),
            },
            Option::None => arbitrary(),
        },
    }
}

fn resolve_const_ty(ty: &TypeNode, init: &Option<Expr>) -> (r: TypeRef)
    requires
        spec_resolve(ty@) is Ok || init_ty_ok(opt_expr_view(*init)),
    ensures
        r@ == spec_const_ty(ty@, opt_expr_view(*init)),
{
    match parse_type(ty) {
        Result::Ok(t) => t,
        Result::Err(_) => match init {
            Option::Some(e) => match &e.ty {
                Option::Some(t2) => match parse_type(t2) {
                    Result::Ok(t) => t,
                    Result::Err(_) => unreached(),
                },
                Option::None => unreached(),
            },
            Option::None => unreached(),
        },
    }
}

// ------------------------------------------------------------------
// Class extraction.
// ------------------------------------------------------------------

/// A class before any member is walked: empty collections, no header yet.
pub open spec fn spec_class_init(name: Seq<char>) -> crate::schema::SpecClass {
    crate::schema::SpecClass {
        header: Seq::empty(),
        name,
        consts: Seq::empty(),
        enums: Seq::empty(),
        aliases: Seq::empty(),
        fields: Seq::empty(),
        methods: Seq::empty(),
    }
}

/// What one member declaration contributes to a class: private members are
/// dropped whole, a sentinel enum unpacks into constants, and everything
/// unsupported is dropped with or without a diagnostic after its error
/// kind.
pub open spec fn spec_step_class(c: crate::schema::SpecClass, m: SpecDecl) -> (
    crate::schema::SpecClass,
    Seq<SpecDiag>,
) {
    if m.access == Option::Some(Visibility::Private) {
        (c, Seq::empty())
    } else {
        match m.kind {
            SpecDeclKind::EnumDecl { name, underlying, enumerators } => {
                let en = spec_parse_enum(name, underlying, enumerators);
                if en.name == "const"@ {
                    (
                        crate::schema::SpecClass {
                            consts: c.consts + consts_of_variants(en.underlying, en.variants),
                            ..c
                        },
                        Seq::empty(),
                    )
                } else {
                    (crate::schema::SpecClass { enums: c.enums.push(en), ..c }, Seq::empty())
                }
            },
            SpecDeclKind::AliasDecl { name, underlying } => {
                let (a, dd) = spec_parse_alias(name, underlying);
                match a {
                    Option::Some(al) => (
                        crate::schema::SpecClass { aliases: c.aliases.push(al), ..c },
                        dd,
                    ),
                    Option::None => (c, dd),
                }
            },
            SpecDeclKind::Var { name, ty, const_qualified, storage, init } => {
                if const_qualified {
                    let (v, dd) = spec_eval_opt(init);
                    match v {
                        Option::Some(val) => (
                            crate::schema::SpecClass {
                                consts: c.consts.push(
                                    SpecConst { ty: spec_const_ty(ty, init), name, value: val },
                                ),
                                ..c
                            },
                            dd,
                        ),
                        Option::None => (c, dd),
                    }
                } else {
                    match spec_resolve(ty) {
                        Result::Ok(t) => (
                            crate::schema::SpecClass {
                                fields: c.fields.push(
                                    crate::schema::SpecField {
                                        access: spec_access(m.access),
                                        is_static: storage == Storage::Static,
                                        name,
                                        ty: t,
                                    },
                                ),
                                ..c
                            },
                            Seq::empty(),
                        ),
                        Result::Err(ParseError::Unsupported) => (
                            c,
                            seq![SpecDiag::UnsupportedField(name)],
                        ),
                        Result::Err(ParseError::Ignored) => (c, Seq::empty()),
                    }
                }
            },
            SpecDeclKind::FunctionDecl { is_method, .. } => {
                if is_method {
                    let (f, dd) = spec_parse_function(m);
                    match f {
                        Option::Some(fv) => (
                            crate::schema::SpecClass { methods: c.methods.push(fv), ..c },
                            dd,
                        ),
                        Option::None => (c, dd),
                    }
                } else {
                    (c, Seq::empty())
                }
            },
            _ => (c, Seq::empty()),
        }
    }
}

/// The walk of a class's member list, left to right.
pub open spec fn spec_walk_members(c: crate::schema::SpecClass, ms: Seq<SpecDecl>) -> (
    crate::schema::SpecClass,
    Seq<SpecDiag>,
)
    decreases ms.len(),
{
    if ms.len() == 0 {
        (c, Seq::empty())
    } else {
        let (c1, d1) = spec_walk_members(c, ms.drop_last());
        let (c2, d2) = spec_step_class(c1, ms.last());
        (c2, d1 + d2)
    }
}

/// The class a class declaration extracts to, with the diagnostics emitted.
/// Its header path is stamped by the enclosing namespace's walker.
pub open spec fn spec_parse_class(d: SpecDecl) -> (crate::schema::SpecClass, Seq<SpecDiag>) {
    match d.kind {
        SpecDeclKind::ClassDecl { name, members } => spec_walk_members(
            spec_class_init(name),
            members,
        ),
        _ => (arbitrary(), Seq::empty()),
    }
}

fn step_class(c: &mut crate::schema::Class, m: &Decl, diags: &mut Vec<Diag>)
    requires
        decl_wf(m@),
        m@.access is Some,
    ensures
        ({
            let (c2, sd) = spec_step_class(old(c)@, m@);
            &&& final(c)@ == c2
            &&& diags_view(final(diags)@) == diags_view(old(diags)@) + sd
        }),
{
    let ghost dg0 = diags@;
    match &m.access {
        Option::Some(Visibility::Private) => {
            proof {
                assert(diags_view(diags@) =~= diags_view(dg0) + Seq::<SpecDiag>::empty());
            }
            return;
        },
        _ => {},
    }
    match &m.kind {
        DeclKind::EnumDecl { .. } => {
            let en = parse_enum(m);
            let needle: String = String::from_str("const");
            if en.name == needle {
                push_enum_consts(&mut c.consts, en);
            } else {
                let ghost e0 = c.enums@;
                c.enums.push(en);
                proof {
                    lemma_seq_view_push(e0, en);
                }
            }
            proof {
                assert(diags_view(diags@) =~= diags_view(dg0) + Seq::<SpecDiag>::empty());
            }
        },
        DeclKind::AliasDecl { .. } => {
            match parse_alias(m, diags) {
                Option::Some(al) => {
                    let ghost a0 = c.aliases@;
                    c.aliases.push(al);
                    proof {
                        lemma_seq_view_push(a0, al);
                    }
                },
                Option::None => {},
            }
        },
        DeclKind::Var { name, ty, const_qualified, storage, init } => {
            if *const_qualified {
                let val = match init {
                    Option::Some(e) => parse_value(e, diags),
                    Option::None => Option::None,
                };
                match val {
                    Option::Some(v) => {
                        let t = resolve_const_ty(ty, init);
                        let cst = Const { ty: t, name: name.clone(), value: v };
                        let ghost c0 = c.consts@;
                        c.consts.push(cst);
                        proof {
                            lemma_seq_view_push(c0, cst);
                        }
                    },
                    Option::None => {},
                }
            } else {
                match parse_type(ty) {
                    Result::Ok(t) => {
                        let access = match &m.access {
                            Option::Some(Visibility::Protected) => Access::Protected,
                            _ => Access::Public,
                        };
                        let f = crate::schema::Field {
                            access,
                            is_static: *storage == Storage::Static,
                            name: name.clone(),
                            ty: t,
                        };
                        let ghost f0 = c.fields@;
                        c.fields.push(f);
                        proof {
                            lemma_seq_view_push(f0, f);
                            assert(diags_view(diags@) =~= diags_view(dg0)
                                + Seq::<SpecDiag>::empty());
                        }
                    },
                    Result::Err(ParseError::Unsupported) => {
                        let dg = Diag::UnsupportedField(name.clone());
                        proof {
                            lemma_seq_view_push(diags@, dg);
                        }
                        diags.push(dg);
                        proof {
                            assert(diags_view(diags@) =~= diags_view(dg0) + seq![
                                SpecDiag::UnsupportedField(name@),
                            ]);
                        }
                    },
                    Result::Err(ParseError::Ignored) => {
                        proof {
                            assert(diags_view(diags@) =~= diags_view(dg0)
                                + Seq::<SpecDiag>::empty());
                        }
                    },
                }
            }
        },
        DeclKind::FunctionDecl { is_method, .. } => {
            if *is_method {
                match parse_function(m, diags) {
                    Option::Some(f) => {
                        let ghost m0 = c.methods@;
                        c.methods.push(f);
                        proof {
                            lemma_seq_view_push(m0, f);
                        }
                    },
                    Option::None => {},
                }
            } else {
                proof {
                    assert(diags_view(diags@) =~= diags_view(dg0) + Seq::<SpecDiag>::empty());
                }
            }
        },
        _ => {
            proof {
                assert(diags_view(diags@) =~= diags_view(dg0) + Seq::<SpecDiag>::empty());
            }
        },
    }
}

/// Extracts a class declaration into a `Class`, exactly as
/// `spec_parse_class` states, appending the diagnostics emitted. The header
/// path is stamped by the caller.
pub fn parse_class(d: &Decl, diags: &mut Vec<Diag>) -> (c: crate::schema::Class)
    requires
        d@.kind is ClassDecl,
        decls_wf_members(d@.kind->ClassDecl_members),
    ensures
        ({
            let (cv, sd) = spec_parse_class(d@);
            &&& c@ == cv
            &&& diags_view(final(diags)@) == diags_view(old(diags)@) + sd
        }),
{
    let ghost dg0 = diags@;
    match &d.kind {
        DeclKind::ClassDecl { name, members } => {
            let ghost msv = crate::input::decls_view(members@);
            proof {
                lemma_decls_view_len(members@);
            }
            let mut c = crate::schema::Class {
                header: String::new(),
                name: name.clone(),
                consts: Vec::new(),
                enums: Vec::new(),
                aliases: Vec::new(),
                fields: Vec::new(),
                methods: Vec::new(),
            };
            proof {
                assert(seq_view(c.consts@) =~= Seq::<SpecConst>::empty());
                assert(seq_view(c.enums@) =~= Seq::<SpecEnum>::empty());
                assert(seq_view(c.aliases@) =~= Seq::<crate::schema::SpecTypeAlias>::empty());
                assert(seq_view(c.fields@) =~= Seq::<crate::schema::SpecField>::empty());
                assert(seq_view(c.methods@) =~= Seq::<SpecFunction>::empty());
                assert(c@ == spec_class_init(name@));
                assert(msv.take(0int) =~= Seq::<SpecDecl>::empty());
                assert(diags_view(diags@) =~= diags_view(dg0) + Seq::<SpecDiag>::empty());
            }
            let mut i: usize = 0;
            while i < members.len()
                invariant
                    i <= members.len(),
                    msv == crate::input::decls_view(members@),
                    msv.len() == members@.len(),
                    decls_wf_members(msv),
                    dg0 == old(diags)@,
                    d@.kind is ClassDecl,
                    d@.kind->ClassDecl_name == name@,
                    d@.kind->ClassDecl_members == msv,
                    ({
                        let (c1, d1) = spec_walk_members(spec_class_init(name@), msv.take(i as int));
                        c@ == c1 && diags_view(diags@) == diags_view(dg0) + d1
                    }),
                decreases members.len() - i,
            {
                proof {
                    lemma_decls_view_index(members@, i as int);
                    lemma_decls_wf_members_index(msv, i as int);
                }
                let ghost cpre = c@;
                let ghost dpre = diags_view(diags@);
                step_class(&mut c, &members[i], diags);
                proof {
                    assert(msv.take(i + 1).drop_last() =~= msv.take(i as int));
                    assert(msv.take(i + 1).last() == msv[i as int]);
                    let (c1, d1) = spec_walk_members(spec_class_init(name@), msv.take(i as int));
                    let (c2, d2) = spec_step_class(c1, msv[i as int]);
                    assert(diags_view(diags@) =~= diags_view(dg0) + (d1 + d2));
                }
                i = i + 1;
            }
            proof {
                assert(msv.take(members@.len() as int) =~= msv);
            }
            c
        },
        _ => unreached(),
    }
}

// ------------------------------------------------------------------
// Namespace walking.
// ------------------------------------------------------------------

/// A namespace before any child is walked.
pub open spec fn spec_ns_init(name: Seq<char>) -> crate::schema::SpecNamespace {
    crate::schema::SpecNamespace {
        name,
        consts: Seq::empty(),
        globals: Seq::empty(),
        enums: Seq::empty(),
        aliases: Seq::empty(),
        classes: Seq::empty(),
        functions: Seq::empty(),
        namespaces: Seq::empty(),
    }
}

/// What one child declaration contributes to a namespace. Children from
/// system headers, implementation files and vendored directories are
/// skipped before any dispatch; a same-named nested namespace merges into
/// the one already walked.
pub open spec fn spec_step_ns(ns: crate::schema::SpecNamespace, c: SpecDecl) -> (
    crate::schema::SpecNamespace,
    Seq<SpecDiag>,
)
    decreases c, 3int,
{
    if spec_loc_skipped(c.loc) {
        (ns, Seq::empty())
    } else {
        match c.kind {
            SpecDeclKind::Var { name, ty, const_qualified, storage, init } => {
                if const_qualified {
                    let (v, dd) = spec_eval_opt(init);
                    match v {
                        Option::Some(val) => (
                            crate::schema::SpecNamespace {
                                consts: ns.consts.push(
                                    SpecConst { ty: spec_const_ty(ty, init), name, value: val },
                                ),
                                ..ns
                            },
                            dd,
                        ),
                        Option::None => (ns, dd),
                    }
                } else if storage == Storage::Extern {
                    match spec_resolve(ty) {
                        Result::Ok(t) => (
                            crate::schema::SpecNamespace {
                                globals: ns.globals.push(
                                    crate::schema::SpecGlobal { ty: t, name },
                                ),
                                ..ns
                            },
                            Seq::empty(),
                        ),
                        Result::Err(ParseError::Unsupported) => (
                            ns,
                            seq![SpecDiag::UnsupportedGlobal(name)],
                        ),
                        Result::Err(ParseError::Ignored) => (ns, Seq::empty()),
                    }
                } else {
                    (ns, Seq::empty())
                }
            },
            SpecDeclKind::EnumDecl { name, underlying, enumerators } => {
                let en = spec_parse_enum(name, underlying, enumerators);
                if en.name == "const"@ {
                    (
                        crate::schema::SpecNamespace {
                            consts: ns.consts + consts_of_variants(en.underlying, en.variants),
                            ..ns
                        },
                        Seq::empty(),
                    )
                } else {
                    (
                        crate::schema::SpecNamespace { enums: ns.enums.push(en), ..ns },
                        Seq::empty(),
                    )
                }
            },
            SpecDeclKind::AliasDecl { name, underlying } => {
                let (a, dd) = spec_parse_alias(name, underlying);
                match a {
                    Option::Some(al) => (
                        crate::schema::SpecNamespace { aliases: ns.aliases.push(al), ..ns },
                        dd,
                    ),
                    Option::None => (ns, dd),
                }
            },
            SpecDeclKind::ClassDecl { .. } => {
                let (cl, dd) = spec_parse_class(c);
                (
                    crate::schema::SpecNamespace {
                        classes: ns.classes.push(
                            crate::schema::SpecClass { header: c.loc.path, ..cl },
                        ),
                        ..ns
                    },
                    dd,
                )
            },
            SpecDeclKind::FunctionDecl { is_method, .. } => {
                if !is_method {
                    let (f, dd) = spec_parse_function(c);
                    match f {
                        Option::Some(fv) => (
                            crate::schema::SpecNamespace {
                                functions: ns.functions.push(fv),
                                ..ns
                            },
                            dd,
                        ),
                        Option::None => (ns, dd),
                    }
                } else {
                    (ns, Seq::empty())
                }
            },
            SpecDeclKind::NamespaceDecl { .. } => {
                match spec_walk_ns(c) {
                    Option::None => (ns, Seq::empty()),
                    Option::Some((cns, dd)) => {
                        let i = crate::merge::first_ns_idx(ns.namespaces, cns.name);
                        if i < 0 {
                            (
                                crate::schema::SpecNamespace {
                                    namespaces: ns.namespaces.push(cns),
                                    ..ns
                                },
                                dd,
                            )
                        } else {
                            (
                                crate::schema::SpecNamespace {
                                    namespaces: ns.namespaces.update(
                                        i,
                                        crate::merge::merge_ns(ns.namespaces[i], cns),
                                    ),
                                    ..ns
                                },
                                dd,
                            )
                        }
                    },
                }
            },
            SpecDeclKind::Other => (ns, Seq::empty()),
        }
    }
}

/// The walk of a namespace's child list, left to right.
pub open spec fn spec_walk_ns_children(
    ns: crate::schema::SpecNamespace,
    cs: Seq<SpecDecl>,
) -> (crate::schema::SpecNamespace, Seq<SpecDiag>)
    decreases cs, 1int,
{
    if cs.len() == 0 {
        (ns, Seq::empty())
    } else {
        let (n1, d1) = spec_walk_ns_children(ns, cs.drop_last());
        let (n2, d2) = spec_step_ns(n1, cs.last());
        (n2, d1 + d2)
    }
}

/// The namespace a namespace declaration walks to, with the diagnostics
/// emitted; an unnamed declaration yields nothing.
pub open spec fn spec_walk_ns(d: SpecDecl) -> Option<
    (crate::schema::SpecNamespace, Seq<SpecDiag>),
>
    decreases d, 2int,
{
    match d.kind {
        SpecDeclKind::NamespaceDecl { name: Option::Some(n), children } => Option::Some(
            spec_walk_ns_children(spec_ns_init(n), children),
        ),
        _ => Option::None,
    }
}

fn step_namespace(ns: &mut crate::schema::Namespace, c: &Decl, diags: &mut Vec<Diag>)
    requires
        decl_wf(c@),
    ensures
        ({
            let (n2, sd) = spec_step_ns(old(ns)@, c@);
            &&& final(ns)@ == n2
            &&& diags_view(final(diags)@) == diags_view(old(diags)@) + sd
        }),
    decreases *c, 3int,
{
    let ghost dg0 = diags@;
    if loc_skipped(&c.loc) {
        proof {
            assert(diags_view(diags@) =~= diags_view(dg0) + Seq::<SpecDiag>::empty());
        }
        return;
    }
    match &c.kind {
        DeclKind::Var { name, ty, const_qualified, storage, init } => {
            if *const_qualified {
                let val = match init {
                    Option::Some(e) => parse_value(e, diags),
                    Option::None => Option::None,
                };
                match val {
                    Option::Some(v) => {
                        let t = resolve_const_ty(ty, init);
                        let cst = Const { ty: t, name: name.clone(), value: v };
                        let ghost c0 = ns.consts@;
                        ns.consts.push(cst);
                        proof {
                            lemma_seq_view_push(c0, cst);
                        }
                    },
                    Option::None => {},
                }
            } else if *storage == Storage::Extern {
                match parse_type(ty) {
                    Result::Ok(t) => {
                        let g = crate::schema::Global { ty: t, name: name.clone() };
                        let ghost g0 = ns.globals@;
                        ns.globals.push(g);
                        proof {
                            lemma_seq_view_push(g0, g);
                            assert(diags_view(diags@) =~= diags_view(dg0)
                                + Seq::<SpecDiag>::empty());
                        }
                    },
                    Result::Err(ParseError::Unsupported) => {
                        let dg = Diag::UnsupportedGlobal(name.clone());
                        proof {
                            lemma_seq_view_push(diags@, dg);
                        }
                        diags.push(dg);
                        proof {
                            assert(diags_view(diags@) =~= diags_view(dg0) + seq![
                                SpecDiag::UnsupportedGlobal(name@),
                            ]);
                        }
                    },
                    Result::Err(ParseError::Ignored) => {
                        proof {
                            assert(diags_view(diags@) =~= diags_view(dg0)
                                + Seq::<SpecDiag>::empty());
                        }
                    },
                }
            } else {
                proof {
                    assert(diags_view(diags@) =~= diags_view(dg0) + Seq::<SpecDiag>::empty());
                }
            }
        },
        DeclKind::EnumDecl { .. } => {
            let en = parse_enum(c);
            let needle: String = String::from_str("const");
            if en.name == needle {
                push_enum_consts(&mut ns.consts, en);
            } else {
                let ghost e0 = ns.enums@;
                ns.enums.push(en);
                proof {
                    lemma_seq_view_push(e0, en);
                }
            }
            proof {
                assert(diags_view(diags@) =~= diags_view(dg0) + Seq::<SpecDiag>::empty());
            }
        },
        DeclKind::AliasDecl { .. } => {
            match parse_alias(c, diags) {
                Option::Some(al) => {
                    let ghost a0 = ns.aliases@;
                    ns.aliases.push(al);
                    proof {
                        lemma_seq_view_push(a0, al);
                    }
                },
                Option::None => {},
            }
        },
        DeclKind::ClassDecl { .. } => {
            let mut cl = parse_class(c, diags);
            cl.header = c.loc.path.clone();
            let ghost c0 = ns.classes@;
            ns.classes.push(cl);
            proof {
                lemma_seq_view_push(c0, cl);
            }
        },
        DeclKind::FunctionDecl { is_method, .. } => {
            if !*is_method {
                match parse_function(c, diags) {
                    Option::Some(f) => {
                        let ghost f0 = ns.functions@;
                        ns.functions.push(f);
                        proof {
                            lemma_seq_view_push(f0, f);
                        }
                    },
                    Option::None => {},
                }
            } else {
                proof {
                    assert(diags_view(diags@) =~= diags_view(dg0) + Seq::<SpecDiag>::empty());
                }
            }
        },
        DeclKind::NamespaceDecl { .. } => {
            match parse_namespace(c, diags) {
                Option::Some(cns) => {
                    let ghost nss0 = ns.namespaces@;
                    match crate::merge::find_ns(&ns.namespaces, &cns.name) {
                        Option::Some(i) => {
                            let mut dn = ns.namespaces.remove(i);
                            crate::merge::merge_namespace(&mut dn, cns);
                            ns.namespaces.insert(i, dn);
                            proof {
                                assert(ns.namespaces@ =~= nss0.update(i as int, dn));
                                crate::merge::lemma_namespaces_view_index(nss0, i as int);
                                crate::merge::lemma_namespaces_view_update(nss0, i as int, dn);
                            }
                        },
                        Option::None => {
                            ns.namespaces.push(cns);
                            proof {
                                crate::merge::lemma_namespaces_view_push(nss0, cns);
                            }
                        },
                    }
                },
                Option::None => {},
            }
        },
        DeclKind::Other => {
            proof {
                assert(diags_view(diags@) =~= diags_view(dg0) + Seq::<SpecDiag>::empty());
            }
        },
    }
}

/// Walks one translation unit's root (or nested) namespace declaration into
/// a `Namespace`, exactly as `spec_walk_ns` states, appending every
/// diagnostic emitted along the way. An unnamed namespace yields `None`.
pub fn parse_namespace(d: &Decl, diags: &mut Vec<Diag>) -> (r: Option<crate::schema::Namespace>)
    requires
        d@.kind is NamespaceDecl,
        decl_wf(d@),
    ensures
        (spec_walk_ns(d@) is Some) == (r is Some),
        r is None ==> final(diags)@ == old(diags)@,
        r is Some ==> ({
            let (nsv, sd) = spec_walk_ns(d@)->0;
            &&& r->0@ == nsv
            &&& diags_view(final(diags)@) == diags_view(old(diags)@) + sd
        }),
    decreases *d, 2int,
{
    let ghost dg0 = diags@;
    match &d.kind {
        DeclKind::NamespaceDecl { name: nopt, children } => {
            let nm: String = match nopt {
                Option::Some(n) => n.clone(),
                Option::None => {
                    return Option::None;
                },
            };
            let ghost csv = crate::input::decls_view(children@);
            proof {
                lemma_decls_view_len(children@);
            }
            let mut ns = crate::schema::Namespace {
                name: nm,
                consts: Vec::new(),
                globals: Vec::new(),
                enums: Vec::new(),
                aliases: Vec::new(),
                classes: Vec::new(),
                functions: Vec::new(),
                namespaces: Vec::new(),
            };
            proof {
                assert(seq_view(ns.consts@) =~= Seq::<SpecConst>::empty());
                assert(seq_view(ns.globals@) =~= Seq::<crate::schema::SpecGlobal>::empty());
                assert(seq_view(ns.enums@) =~= Seq::<SpecEnum>::empty());
                assert(seq_view(ns.aliases@) =~= Seq::<crate::schema::SpecTypeAlias>::empty());
                assert(seq_view(ns.classes@) =~= Seq::<crate::schema::SpecClass>::empty());
                assert(seq_view(ns.functions@) =~= Seq::<SpecFunction>::empty());
                assert(ns@ == spec_ns_init(nopt->0@));
                assert(csv.take(0int) =~= Seq::<SpecDecl>::empty());
                assert(diags_view(diags@) =~= diags_view(dg0) + Seq::<SpecDiag>::empty());
            }
            let mut i: usize = 0;
            while i < children.len()
                invariant
                    i <= children.len(),
                    csv == crate::input::decls_view(children@),
                    csv.len() == children@.len(),
                    decls_wf(csv),
                    dg0 == old(diags)@,
                    d.kind is NamespaceDecl,
                    d.kind->NamespaceDecl_children == *children,
                    d@.kind is NamespaceDecl,
                    d@.kind->NamespaceDecl_name == opt_ns_name(d@.kind),
                    d@.kind->NamespaceDecl_name is Some,
                    d@.kind->NamespaceDecl_children == csv,
                    ({
                        let (n1, d1) = spec_walk_ns_children(
                            spec_ns_init(d@.kind->NamespaceDecl_name->0),
                            csv.take(i as int),
                        );
                        ns@ == n1 && diags_view(diags@) == diags_view(dg0) + d1
                    }),
                decreases children.len() - i,
            {
                proof {
                    lemma_decls_view_index(children@, i as int);
                    lemma_decls_wf_index(csv, i as int);
                    assert(decreases_to!(*d => d.kind));
                    assert(decreases_to!(d.kind => d.kind->NamespaceDecl_children));
                    assert(decreases_to!(*children => children@));
                    assert(decreases_to!(children@ => children@[i as int]));
                    assert(decreases_to!(*d => children@[i as int]));
                }
                step_namespace(&mut ns, &children[i], diags);
                proof {
                    assert(csv.take(i + 1).drop_last() =~= csv.take(i as int));
                    assert(csv.take(i + 1).last() == csv[i as int]);
                    let (n1, d1) = spec_walk_ns_children(
                        spec_ns_init(d@.kind->NamespaceDecl_name->0),
                        csv.take(i as int),
                    );
                    let (n2, d2) = spec_step_ns(n1, csv[i as int]);
                    assert(diags_view(diags@) =~= diags_view(dg0) + (d1 + d2));
                }
                i = i + 1;
            }
            proof {
                assert(csv.take(children@.len() as int) =~= csv);
            }
            Option::Some(ns)
        },
        _ => unreached(),
    }
}

/// The declared name of a namespace declaration.
pub open spec fn opt_ns_name(k: SpecDeclKind) -> Option<Seq<char>> {
    match k {
        SpecDeclKind::NamespaceDecl { name, .. } => name,
        _ => Option::None,
    }
}

// ------------------------------------------------------------------
// Checking well-formedness of an input tree.
// ------------------------------------------------------------------

fn check_enum_underlying(underlying: &TypeNode) -> (b: bool)
    ensures
        b == enum_wf(underlying@),
{
    match parse_type(underlying) {
        Result::Ok(u) => {
            let unsigned = type_ref_is_unsigned(&u);
            let signed = match &u.name {
                crate::schema::TypeName::Char => true,
                crate::schema::TypeName::Short => true,
                crate::schema::TypeName::Int => true,
                crate::schema::TypeName::Long => true,
                crate::schema::TypeName::LongLong => true,
                _ => false,
            };
            signed || unsigned
        },
        Result::Err(_) => false,
    }
}

/// Decides whether a declaration tree is well-formed, exactly as `decl_wf`
/// states: callers that cannot trust their input test it with this before
/// walking.
pub fn check_decl(d: &Decl) -> (b: bool)
    ensures
        b == decl_wf(d@),
    decreases *d, 2int,
{
    match &d.kind {
        DeclKind::EnumDecl { underlying, .. } => check_enum_underlying(underlying),
        DeclKind::Var { ty, const_qualified, init, .. } => {
            if !*const_qualified {
                true
            } else {
                let mut scratch: Vec<Diag> = Vec::new();
                let evaluable = match init {
                    Option::Some(e) => parse_value(e, &mut scratch).is_some(),
                    Option::None => false,
                };
                if !evaluable {
                    true
                } else if parse_type(ty).is_ok() {
                    true
                } else {
                    match init {
                        Option::Some(e) => match &e.ty {
                            Option::Some(t2) => parse_type(t2).is_ok(),
                            Option::None => false,
                        },
                        Option::None => false,
                    }
                }
            }
        },
        DeclKind::ClassDecl { members, .. } => {
            let ghost msv = crate::input::decls_view(members@);
            proof {
                lemma_decls_view_len(members@);
            }
            let mut i: usize = 0;
            while i < members.len()
                invariant
                    i <= members.len(),
                    msv == crate::input::decls_view(members@),
                    msv.len() == members@.len(),
                    d.kind is ClassDecl,
                    d.kind->ClassDecl_members == *members,
                    d@.kind is ClassDecl,
                    d@.kind->ClassDecl_members == msv,
                    decls_wf_members(msv.take(i as int)),
                decreases members.len() - i,
            {
                proof {
                    lemma_decls_view_index(members@, i as int);
                    assert(decreases_to!(*d => d.kind));
                    assert(decreases_to!(d.kind => d.kind->ClassDecl_members));
                    assert(decreases_to!(*members => members@));
                    assert(decreases_to!(members@ => members@[i as int]));
                    assert(decreases_to!(*d => members@[i as int]));
                }
                let m = &members[i];
                let has_access = match &m.access {
                    Option::Some(_) => true,
                    Option::None => false,
                };
                if !has_access || !check_decl(m) {
                    proof {
                        if decls_wf_members(msv) {
                            lemma_decls_wf_members_index(msv, i as int);
                        }
                    }
                    return false;
                }
                proof {
                    assert(msv.take(i + 1).drop_last() =~= msv.take(i as int));
                    assert(msv.take(i + 1).last() == msv[i as int]);
                }
                i = i + 1;
            }
            proof {
                assert(msv.take(members@.len() as int) =~= msv);
            }
            true
        },
        DeclKind::NamespaceDecl { children, .. } => {
            let ghost csv = crate::input::decls_view(children@);
            proof {
                lemma_decls_view_len(children@);
            }
            let mut i: usize = 0;
            while i < children.len()
                invariant
                    i <= children.len(),
                    csv == crate::input::decls_view(children@),
                    csv.len() == children@.len(),
                    d.kind is NamespaceDecl,
                    d.kind->NamespaceDecl_children == *children,
                    d@.kind is NamespaceDecl,
                    d@.kind->NamespaceDecl_children == csv,
                    decls_wf(csv.take(i as int)),
                decreases children.len() - i,
            {
                proof {
                    lemma_decls_view_index(children@, i as int);
                    assert(decreases_to!(*d => d.kind));
                    assert(decreases_to!(d.kind => d.kind->NamespaceDecl_children));
                    assert(decreases_to!(*children => children@));
                    assert(decreases_to!(children@ => children@[i as int]));
                    assert(decreases_to!(*d => children@[i as int]));
                }
                if !check_decl(&children[i]) {
                    proof {
                        if decls_wf(csv) {
                            lemma_decls_wf_index(csv, i as int);
                        }
                    }
                    return false;
                }
                proof {
                    assert(csv.take(i + 1).drop_last() =~= csv.take(i as int));
                    assert(csv.take(i + 1).last() == csv[i as int]);
                }
                i = i + 1;
            }
            proof {
                assert(csv.take(children@.len() as int) =~= csv);
            }
            true
        },
        _ => true,
    }
}

} // verus!
