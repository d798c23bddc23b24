//! Laws of the compiler: properties that hold of every input, proved once
//! and for all over the specification functions the executable code is
//! verified against.

use vstd::prelude::*;

use crate::input::{PrimKind, SpecDecl, SpecDeclKind, SpecParamDecl, SpecTypeNode, Visibility};
use crate::merge::{
    first_ns_idx, merge_into, merge_ns, merge_ns_seq, name_in, names_unique, namespace_wf,
    SpecNamed,
};
use crate::paths::spec_loc_skipped;
use crate::report::SpecDiag;
use crate::resolve::{prim_type_name, spec_base, spec_resolve, spec_strip, ParseError};
use crate::schema::{SpecConst, SpecNamespace, SpecTypeRef, TypeSemantic};
use crate::walk::{
    consts_of_variants, spec_enum_name, spec_param_tys, spec_parse_enum, spec_step_class,
    spec_step_ns,
};

verus! {

/// Resolving a bare supported primitive type yields a plain `Value` type
/// reference carrying exactly the matching primitive tag.
pub proof fn lemma_resolve_primitive(k: PrimKind, c: bool)
    requires
        k != PrimKind::Void,
    ensures
        spec_resolve(SpecTypeNode::Prim { kind: k, is_const: c }) == Result::<
            SpecTypeRef,
            ParseError,
        >::Ok(SpecTypeRef { name: prim_type_name(k), semantic: TypeSemantic::Value, is_const: c }),
{
}

/// Resolving a pointer to a pointer classifies the doubly-dereferenced base
/// with the `PointerToPointer` shape; a third level of pointing is not
/// represented and fails as unsupported.
pub proof fn lemma_resolve_pointer_to_pointer(inner: SpecTypeNode)
    ensures
        spec_resolve(
            SpecTypeNode::Pointer {
                pointee: Box::new(SpecTypeNode::Pointer { pointee: Box::new(inner) }),
            },
        ) == spec_base(spec_strip(inner), TypeSemantic::PointerToPointer),
        (match spec_resolve(
            SpecTypeNode::Pointer {
                pointee: Box::new(SpecTypeNode::Pointer { pointee: Box::new(inner) }),
            },
        ) {
            Result::Ok(r) => r.semantic == TypeSemantic::PointerToPointer,
            Result::Err(_) => true,
        }),
        (spec_strip(inner) is Pointer) ==> spec_resolve(
            SpecTypeNode::Pointer {
                pointee: Box::new(SpecTypeNode::Pointer { pointee: Box::new(inner) }),
            },
        ) == Result::<SpecTypeRef, ParseError>::Err(ParseError::Unsupported),
{
}

/// Each variant of a sentinel enum becomes exactly one constant, typed by
/// the enum's underlying type and carrying the variant's name and value.
pub proof fn lemma_consts_of_variants_index(
    u: SpecTypeRef,
    vs: Seq<crate::schema::SpecVariant>,
    k: int,
)
    requires
        0 <= k < vs.len(),
    ensures
        consts_of_variants(u, vs).len() == vs.len(),
        consts_of_variants(u, vs)[k] == (SpecConst {
            ty: u,
            name: vs[k].name,
            value: vs[k].value,
        }),
    decreases vs.len(),
{
    lemma_consts_of_variants_len(u, vs.drop_last());
    if k < vs.len() - 1 {
        lemma_consts_of_variants_index(u, vs.drop_last(), k);
    }
}

pub proof fn lemma_consts_of_variants_len(u: SpecTypeRef, vs: Seq<crate::schema::SpecVariant>)
    ensures
        consts_of_variants(u, vs).len() == vs.len(),
    decreases vs.len(),
{
    if vs.len() > 0 {
        lemma_consts_of_variants_len(u, vs.drop_last());
    }
}

/// An enum named by the reserved sentinel contributes no `Enum` entry to
/// the enclosing namespace, and exactly one `Const` per variant, each typed
/// by the enum's underlying type.
pub proof fn lemma_sentinel_enum_unpacks(ns: SpecNamespace, c: SpecDecl)
    requires
        !spec_loc_skipped(c.loc),
        c.kind is EnumDecl,
        spec_enum_name(c.kind->EnumDecl_name) == "const"@,
    ensures
        ({
            let en = spec_parse_enum(
                c.kind->EnumDecl_name,
                c.kind->EnumDecl_underlying,
                c.kind->EnumDecl_enumerators,
            );
            let (n2, dd) = spec_step_ns(ns, c);
            &&& n2.enums == ns.enums
            &&& n2.consts.len() == ns.consts.len() + en.variants.len()
            &&& forall|k: int|
                0 <= k < en.variants.len() ==> n2.consts[ns.consts.len() + k] == (SpecConst {
                    ty: en.underlying,
                    name: en.variants[k].name,
                    value: en.variants[k].value,
                })
            &&& dd == Seq::<SpecDiag>::empty()
        }),
{
    let en = spec_parse_enum(
        c.kind->EnumDecl_name,
        c.kind->EnumDecl_underlying,
        c.kind->EnumDecl_enumerators,
    );
    lemma_consts_of_variants_len(en.underlying, en.variants);
    assert forall|k: int| 0 <= k < en.variants.len() implies spec_step_ns(ns, c).0.consts[ns.consts.len()
        + k] == (SpecConst {
        ty: en.underlying,
        name: en.variants[k].name,
        value: en.variants[k].value,
    }) by {
        lemma_consts_of_variants_index(en.underlying, en.variants, k);
    }
}

/// The same, at class scope: a sentinel enum member contributes constants,
/// never an `Enum` entry.
pub proof fn lemma_sentinel_enum_unpacks_in_class(c: crate::schema::SpecClass, m: SpecDecl)
    requires
        m.access is Some,
        m.access != Option::Some(Visibility::Private),
        m.kind is EnumDecl,
        spec_enum_name(m.kind->EnumDecl_name) == "const"@,
    ensures
        ({
            let en = spec_parse_enum(
                m.kind->EnumDecl_name,
                m.kind->EnumDecl_underlying,
                m.kind->EnumDecl_enumerators,
            );
            let (c2, dd) = spec_step_class(c, m);
            &&& c2.enums == c.enums
            &&& c2.consts.len() == c.consts.len() + en.variants.len()
            &&& forall|k: int|
                0 <= k < en.variants.len() ==> c2.consts[c.consts.len() + k] == (SpecConst {
                    ty: en.underlying,
                    name: en.variants[k].name,
                    value: en.variants[k].value,
                })
            &&& dd == Seq::<SpecDiag>::empty()
        }),
{
    let en = spec_parse_enum(
        m.kind->EnumDecl_name,
        m.kind->EnumDecl_underlying,
        m.kind->EnumDecl_enumerators,
    );
    lemma_consts_of_variants_len(en.underlying, en.variants);
    assert forall|k: int| 0 <= k < en.variants.len() implies spec_step_class(c, m).0.consts[c.consts.len()
        + k] == (SpecConst {
        ty: en.underlying,
        name: en.variants[k].name,
        value: en.variants[k].value,
    }) by {
        lemma_consts_of_variants_index(en.underlying, en.variants, k);
    }
}

/// A parameter list whose types all resolve resolves as a whole.
pub proof fn lemma_param_tys_all_ok(ps: Seq<SpecParamDecl>)
    requires
        forall|j: int| 0 <= j < ps.len() ==> spec_resolve(#[trigger] ps[j].ty) is Ok,
    ensures
        spec_param_tys(ps) is Ok,
    decreases ps.len(),
{
    if ps.len() > 0 {
        lemma_param_tys_all_ok(ps.drop_last());
    }
}

/// A free function with exactly one unsupported parameter type is entirely
/// absent from its enclosing namespace — every collection is unchanged —
/// and exactly one diagnostic is emitted.
pub proof fn lemma_unsupported_param_drops_function(ns: SpecNamespace, c: SpecDecl, i: int)
    requires
        !spec_loc_skipped(c.loc),
        c.kind is FunctionDecl,
        !c.kind->FunctionDecl_is_method,
        c.kind->FunctionDecl_params is Some,
        0 <= i < c.kind->FunctionDecl_params->0.len(),
        spec_resolve(c.kind->FunctionDecl_params->0[i].ty) == Result::<
            SpecTypeRef,
            ParseError,
        >::Err(ParseError::Unsupported),
        forall|j: int|
            0 <= j < c.kind->FunctionDecl_params->0.len() && j != i ==> spec_resolve(
                (#[trigger] c.kind->FunctionDecl_params->0[j]).ty,
            ) is Ok,
    ensures
        spec_step_ns(ns, c).0 == ns,
        spec_step_ns(ns, c).1 == seq![SpecDiag::UnsupportedParam(c.kind->FunctionDecl_name)],
{
    let ps = c.kind->FunctionDecl_params->0;
    assert(spec_param_tys(ps.take(i)) is Ok) by {
        assert(forall|j: int|
            0 <= j < ps.take(i).len() ==> spec_resolve(#[trigger] ps.take(i)[j].ty) is Ok);
        lemma_param_tys_all_ok(ps.take(i));
    }
    assert(spec_param_tys(ps.take(i + 1)) == Result::<Seq<SpecTypeRef>, ParseError>::Err(
        ParseError::Unsupported,
    )) by {
        assert(ps.take(i + 1).drop_last() =~= ps.take(i));
        assert(ps.take(i + 1).last() == ps[i]);
    }
    crate::walk::lemma_param_tys_prefix_err(ps, i + 1);
}

/// A private class member contributes nothing at all: the class and the
/// diagnostics are untouched.
pub proof fn lemma_private_member_dropped(c: crate::schema::SpecClass, m: SpecDecl)
    requires
        m.access == Option::Some(Visibility::Private),
    ensures
        spec_step_class(c, m) == (c, Seq::<SpecDiag>::empty()),
{
}

/// A protected data member whose type resolves appears as a field marked
/// `Protected`.
pub proof fn lemma_protected_member_kept(c: crate::schema::SpecClass, m: SpecDecl)
    requires
        m.access == Option::Some(Visibility::Protected),
        m.kind is Var,
        !m.kind->Var_const_qualified,
        spec_resolve(m.kind->Var_ty) is Ok,
    ensures
        ({
            let (c2, dd) = spec_step_class(c, m);
            &&& c2.fields.len() == c.fields.len() + 1
            &&& c2.fields.last().access == crate::schema::Access::Protected
            &&& c2.fields.last().name == m.kind->Var_name
            &&& dd == Seq::<SpecDiag>::empty()
        }),
{
}

/// Folding a source collection into an empty one, when the source's names
/// are unique, reproduces the source exactly.
pub proof fn lemma_merge_into_empty<T: SpecNamed>(s: Seq<T>)
    requires
        names_unique(s),
    ensures
        merge_into(Seq::<T>::empty(), s) == s,
    decreases s.len(),
{
    if s.len() > 0 {
        assert(names_unique(s.drop_last()));
        lemma_merge_into_empty(s.drop_last());
        assert(!name_in(s.drop_last(), s.last().spec_name()));
        assert(s.drop_last().push(s.last()) =~= s);
    }
}

pub proof fn lemma_first_ns_idx_absent(s: Seq<SpecNamespace>, n: Seq<char>)
    requires
        forall|i: int| 0 <= i < s.len() ==> (#[trigger] s[i]).spec_name() != n,
    ensures
        first_ns_idx(s, n) == -1,
    decreases s.len(),
{
    if s.len() > 0 {
        lemma_first_ns_idx_absent(s.drop_first(), n);
    }
}

pub proof fn lemma_merge_ns_seq_empty(s: Seq<SpecNamespace>)
    requires
        names_unique(s),
    ensures
        merge_ns_seq(Seq::<SpecNamespace>::empty(), s) == s,
    decreases s.len(),
{
    if s.len() > 0 {
        assert(names_unique(s.drop_last()));
        lemma_merge_ns_seq_empty(s.drop_last());
        assert(forall|i: int|
            0 <= i < s.drop_last().len() ==> (#[trigger] s.drop_last()[i]).spec_name()
                != s.last().spec_name());
        lemma_first_ns_idx_absent(s.drop_last(), s.last().spec_name());
        assert(s.drop_last().push(s.last()) =~= s);
    }
}

/// Merging a well-formed tree into an empty tree reproduces the tree:
/// every collection of the result equals the source's, structurally.
pub proof fn lemma_merge_into_empty_tree(e: SpecNamespace, t: SpecNamespace)
    requires
        e.consts.len() == 0,
        e.globals.len() == 0,
        e.enums.len() == 0,
        e.aliases.len() == 0,
        e.classes.len() == 0,
        e.functions.len() == 0,
        e.namespaces.len() == 0,
        namespace_wf(t),
    ensures
        ({
            let m = merge_ns(e, t);
            &&& m.consts == t.consts
            &&& m.globals == t.globals
            &&& m.enums == t.enums
            &&& m.aliases == t.aliases
            &&& m.classes == t.classes
            &&& m.functions == t.functions
            &&& m.namespaces == t.namespaces
        }),
{
    assert(e.consts =~= Seq::<SpecConst>::empty());
    assert(e.globals =~= Seq::<crate::schema::SpecGlobal>::empty());
    assert(e.enums =~= Seq::<crate::schema::SpecEnum>::empty());
    assert(e.aliases =~= Seq::<crate::schema::SpecTypeAlias>::empty());
    assert(e.classes =~= Seq::<crate::schema::SpecClass>::empty());
    assert(e.functions =~= Seq::<crate::schema::SpecFunction>::empty());
    assert(e.namespaces =~= Seq::<SpecNamespace>::empty());
    lemma_merge_into_empty(t.consts);
    lemma_merge_into_empty(t.globals);
    lemma_merge_into_empty(t.enums);
    lemma_merge_into_empty(t.aliases);
    lemma_merge_into_empty(t.classes);
    lemma_merge_into_empty(t.functions);
    lemma_merge_ns_seq_empty(t.namespaces);
}

/// Appending nothing new: folding a source whose names are all present
/// already leaves the destination unchanged.
pub proof fn lemma_merge_into_already_present<T: SpecNamed>(d: Seq<T>, s: Seq<T>)
    requires
        forall|i: int| 0 <= i < s.len() ==> name_in(d, (#[trigger] s[i]).spec_name()),
    ensures
        merge_into(d, s) == d,
    decreases s.len(),
{
    if s.len() > 0 {
        lemma_merge_into_already_present(d, s.drop_last());
    }
}

pub proof fn lemma_name_in_self<T: SpecNamed>(s: Seq<T>, i: int)
    requires
        0 <= i < s.len(),
    ensures
        name_in(s, s[i].spec_name()),
{
    assert(s[i].spec_name() == s[i].spec_name());
}

/// Size of a namespace tree in the mathematical model; the idempotence
/// proof descends on it.
pub open spec fn spec_ns_size(n: SpecNamespace) -> nat
    decreases n, 1int,
{
    1 + spec_nss_size(n.namespaces)
}

pub open spec fn spec_nss_size(s: Seq<SpecNamespace>) -> nat
    decreases s, 0int,
{
    if s.len() == 0 {
        0nat
    } else {
        spec_ns_size(s[0]) + spec_nss_size(s.drop_first())
    }
}

pub proof fn lemma_spec_nss_size_index(s: Seq<SpecNamespace>, i: int)
    requires
        0 <= i < s.len(),
    ensures
        spec_ns_size(s[i]) <= spec_nss_size(s),
    decreases s.len(),
{
    if i > 0 {
        lemma_spec_nss_size_index(s.drop_first(), i - 1);
    }
}

pub proof fn lemma_first_ns_idx_finds(s: Seq<SpecNamespace>, j: int)
    requires
        names_unique(s),
        0 <= j < s.len(),
    ensures
        first_ns_idx(s, s[j].spec_name()) == j,
    decreases s.len(),
{
    if j > 0 {
        assert(names_unique(s.drop_first()));
        lemma_first_ns_idx_finds(s.drop_first(), j - 1);
    }
}

proof fn lemma_merge_ns_seq_self_prefix(d: Seq<SpecNamespace>, m: int)
    requires
        names_unique(d),
        forall|i: int| 0 <= i < d.len() ==> namespace_wf(#[trigger] d[i]),
        0 <= m <= d.len(),
    ensures
        merge_ns_seq(d, d.take(m)) == d,
    decreases spec_nss_size(d), 1int, m,
{
    if m == 0 {
        assert(d.take(0int) =~= Seq::<SpecNamespace>::empty());
    } else {
        assert(d.take(m).drop_last() =~= d.take(m - 1));
        lemma_merge_ns_seq_self_prefix(d, m - 1);
        let sn = d.take(m).last();
        assert(sn == d[m - 1]);
        lemma_first_ns_idx_finds(d, m - 1);
        lemma_spec_nss_size_index(d, m - 1);
        lemma_merge_ns_idempotent(d[m - 1]);
        assert(d.update(m - 1, d[m - 1]) =~= d);
    }
}

/// The merge is idempotent: folding a well-formed tree into a copy of
/// itself yields the tree unchanged.
pub proof fn lemma_merge_ns_idempotent(t: SpecNamespace)
    requires
        namespace_wf(t),
    ensures
        merge_ns(t, t) == t,
    decreases spec_ns_size(t), 0int, 0int,
{
    assert forall|i: int| 0 <= i < t.consts.len() implies name_in(
        t.consts,
        (#[trigger] t.consts[i]).spec_name(),
    ) by {
        lemma_name_in_self(t.consts, i);
    }
    lemma_merge_into_already_present(t.consts, t.consts);
    assert forall|i: int| 0 <= i < t.globals.len() implies name_in(
        t.globals,
        (#[trigger] t.globals[i]).spec_name(),
    ) by {
        lemma_name_in_self(t.globals, i);
    }
    lemma_merge_into_already_present(t.globals, t.globals);
    assert forall|i: int| 0 <= i < t.enums.len() implies name_in(
        t.enums,
        (#[trigger] t.enums[i]).spec_name(),
    ) by {
        lemma_name_in_self(t.enums, i);
    }
    lemma_merge_into_already_present(t.enums, t.enums);
    assert forall|i: int| 0 <= i < t.aliases.len() implies name_in(
        t.aliases,
        (#[trigger] t.aliases[i]).spec_name(),
    ) by {
        lemma_name_in_self(t.aliases, i);
    }
    lemma_merge_into_already_present(t.aliases, t.aliases);
    assert forall|i: int| 0 <= i < t.classes.len() implies name_in(
        t.classes,
        (#[trigger] t.classes[i]).spec_name(),
    ) by {
        lemma_name_in_self(t.classes, i);
    }
    lemma_merge_into_already_present(t.classes, t.classes);
    assert forall|i: int| 0 <= i < t.functions.len() implies name_in(
        t.functions,
        (#[trigger] t.functions[i]).spec_name(),
    ) by {
        lemma_name_in_self(t.functions, i);
    }
    lemma_merge_into_already_present(t.functions, t.functions);
    assert(t.namespaces.take(t.namespaces.len() as int) =~= t.namespaces);
    lemma_merge_ns_seq_self_prefix(t.namespaces, t.namespaces.len() as int);
}

} // verus!
