//! The merger: folds one translation unit's namespace tree into the unified
//! destination tree, de-duplicating every name-keyed collection with a
//! first-seen-wins rule, and recursing into same-named nested namespaces.

use vstd::prelude::*;

use crate::schema::{
    lemma_seq_view_index, lemma_seq_view_len, lemma_seq_view_push, namespace_view,
    namespaces_view, seq_view, Class, Const, Enum, Function, Global, Namespace, SpecClass,
    SpecConst, SpecEnum, SpecFunction, SpecGlobal, SpecNamespace, SpecTypeAlias, TypeAlias,
};

verus! {

/// A schema entity that carries a name its collection is keyed by.
pub trait SpecNamed {
    spec fn spec_name(self) -> Seq<char>;
}

impl SpecNamed for SpecNamespace {
    open spec fn spec_name(self) -> Seq<char> {
        self.name
    }
}

/// No two entries of a collection share a name: the invariant every scope
/// of a well-formed tree keeps per kind-category.
pub open spec fn names_unique<T: SpecNamed>(s: Seq<T>) -> bool {
    forall|i: int, j: int| 0 <= i < j < s.len() ==> s[i].spec_name() != s[j].spec_name()
}

/// Well-formedness of a namespace tree: every name-keyed collection has
/// unique names, recursively.
pub open spec fn namespace_wf(n: SpecNamespace) -> bool
    decreases n,
{
    &&& names_unique(n.consts)
    &&& names_unique(n.globals)
    &&& names_unique(n.enums)
    &&& names_unique(n.aliases)
    &&& names_unique(n.classes)
    &&& names_unique(n.functions)
    &&& names_unique(n.namespaces)
    &&& forall|i: int| 0 <= i < n.namespaces.len() ==> namespace_wf(#[trigger] n.namespaces[i])
}

/// Whether some entry of `s` carries the name `n`.
pub open spec fn name_in<T: SpecNamed>(s: Seq<T>, n: Seq<char>) -> bool {
    exists|i: int| 0 <= i < s.len() && s[i].spec_name() == n
}

/// Folds `src` into `dst` in order, appending an entry only when no entry of
/// the same name is present yet: first seen wins.
pub open spec fn merge_into<T: SpecNamed>(dst: Seq<T>, src: Seq<T>) -> Seq<T>
    decreases src.len(),
{
    if src.len() == 0 {
        dst
    } else {
        let d1 = merge_into(dst, src.drop_last());
        let x = src.last();
        if name_in(d1, x.spec_name()) {
            d1
        } else {
            d1.push(x)
        }
    }
}

/// Index of the first namespace named `n`, or -1.
pub open spec fn first_ns_idx(s: Seq<SpecNamespace>, n: Seq<char>) -> int
    decreases s.len(),
{
    if s.len() == 0 {
        -1
    } else if s[0].spec_name() == n {
        0
    } else {
        let r = first_ns_idx(s.drop_first(), n);
        if r < 0 {
            -1
        } else {
            1 + r
        }
    }
}

/// The merge of one namespace into another: every name-keyed collection is
/// folded first-seen-wins; same-named nested namespaces merge recursively.
/// The destination's own name stays.
pub open spec fn merge_ns(dst: SpecNamespace, src: SpecNamespace) -> SpecNamespace
    decreases src, 1int,
{
    SpecNamespace {
        name: dst.name,
        consts: merge_into(dst.consts, src.consts),
        globals: merge_into(dst.globals, src.globals),
        enums: merge_into(dst.enums, src.enums),
        aliases: merge_into(dst.aliases, src.aliases),
        classes: merge_into(dst.classes, src.classes),
        functions: merge_into(dst.functions, src.functions),
        namespaces: merge_ns_seq(dst.namespaces, src.namespaces),
    }
}

/// The merge of a nested-namespace list: each source namespace merges into
/// the first same-named destination namespace, or is appended.
pub open spec fn merge_ns_seq(dst: Seq<SpecNamespace>, src: Seq<SpecNamespace>) -> Seq<
    SpecNamespace,
>
    decreases src, 2int,
{
    if src.len() == 0 {
        dst
    } else {
        let d1 = merge_ns_seq(dst, src.drop_last());
        let sn = src.last();
        let i = first_ns_idx(d1, sn.spec_name());
        if i < 0 {
            d1.push(sn)
        } else {
            d1.update(i, merge_ns(d1[i], sn))
        }
    }
}

impl SpecNamed for SpecConst {
    open spec fn spec_name(self) -> Seq<char> {
        self.name
    }
}

fn const_name_in(v: &Vec<Const>, n: &String) -> (b: bool)
    ensures
        b == name_in(seq_view(v@), n@),
{
    let mut i: usize = 0;
    while i < v.len()
        invariant
            0 <= i <= v.len(),
            forall|j: int| 0 <= j < i ==> seq_view(v@)[j].spec_name() != n@,
        decreases v.len() - i,
    {
        proof {
            lemma_seq_view_index(v@, i as int);
        }
        if v[i].name == *n {
            return true;
        }
        i = i + 1;
    }
    proof {
        lemma_seq_view_len(v@);
    }
    false
}

/// Appends each source entry whose name no destination entry of the same
/// category already carries; first seen wins.
pub fn merge_consts(dst: &mut Vec<Const>, src: Vec<Const>)
    ensures
        seq_view(final(dst)@) == merge_into(seq_view(old(dst)@), seq_view(src@)),
{
    let ghost s0 = src@;
    let ghost sv = seq_view(s0);
    let srclen = src.len();
    proof {
        assert(s0.len() == srclen as int);
    }
    let mut src = src;
    let mut k: usize = 0;
    proof {
        lemma_seq_view_len(s0);
        assert(sv.take(0int) =~= Seq::<SpecConst>::empty());
    }
    while src.len() > 0
        invariant
            sv == seq_view(s0),
            sv.len() == s0.len(),
            k <= s0.len(),
            s0.len() <= usize::MAX,
            src@ == s0.skip(k as int),
            seq_view(dst@) == merge_into(seq_view(old(dst)@), sv.take(k as int)),
        decreases src.len(),
    {
        proof {
            lemma_seq_view_index(s0, k as int);
        }
        let x = src.remove(0);
        assert(x == s0[k as int]);
        let ghost d0 = dst@;
        if !const_name_in(dst, &x.name) {
            dst.push(x);
            proof {
                lemma_seq_view_push(d0, x);
            }
        }
        proof {
            assert(sv.take(k + 1).drop_last() =~= sv.take(k as int));
            assert(sv.take(k + 1).last() == sv[k as int]);
            assert(src@ =~= s0.skip(k + 1));
        }
        k = k + 1;
    }
    proof {
        assert(sv.take(s0.len() as int) =~= sv);
    }
}

impl SpecNamed for SpecGlobal {
    open spec fn spec_name(self) -> Seq<char> {
        self.name
    }
}

fn global_name_in(v: &Vec<Global>, n: &String) -> (b: bool)
    ensures
        b == name_in(seq_view(v@), n@),
{
    let mut i: usize = 0;
    while i < v.len()
        invariant
            0 <= i <= v.len(),
            forall|j: int| 0 <= j < i ==> seq_view(v@)[j].spec_name() != n@,
        decreases v.len() - i,
    {
        proof {
            lemma_seq_view_index(v@, i as int);
        }
        if v[i].name == *n {
            return true;
        }
        i = i + 1;
    }
    proof {
        lemma_seq_view_len(v@);
    }
    false
}

/// Appends each source entry whose name no destination entry of the same
/// category already carries; first seen wins.
pub fn merge_globals(dst: &mut Vec<Global>, src: Vec<Global>)
    ensures
        seq_view(final(dst)@) == merge_into(seq_view(old(dst)@), seq_view(src@)),
{
    let ghost s0 = src@;
    let ghost sv = seq_view(s0);
    let srclen = src.len();
    proof {
        assert(s0.len() == srclen as int);
    }
    let mut src = src;
    let mut k: usize = 0;
    proof {
        lemma_seq_view_len(s0);
        assert(sv.take(0int) =~= Seq::<SpecGlobal>::empty());
    }
    while src.len() > 0
        invariant
            sv == seq_view(s0),
            sv.len() == s0.len(),
            k <= s0.len(),
            s0.len() <= usize::MAX,
            src@ == s0.skip(k as int),
            seq_view(dst@) == merge_into(seq_view(old(dst)@), sv.take(k as int)),
        decreases src.len(),
    {
        proof {
            lemma_seq_view_index(s0, k as int);
        }
        let x = src.remove(0);
        assert(x == s0[k as int]);
        let ghost d0 = dst@;
        if !global_name_in(dst, &x.name) {
            dst.push(x);
            proof {
                lemma_seq_view_push(d0, x);
            }
        }
        proof {
            assert(sv.take(k + 1).drop_last() =~= sv.take(k as int));
            assert(sv.take(k + 1).last() == sv[k as int]);
            assert(src@ =~= s0.skip(k + 1));
        }
        k = k + 1;
    }
    proof {
        assert(sv.take(s0.len() as int) =~= sv);
    }
}

impl SpecNamed for SpecEnum {
    open spec fn spec_name(self) -> Seq<char> {
        self.name
    }
}

fn enum_name_in(v: &Vec<Enum>, n: &String) -> (b: bool)
    ensures
        b == name_in(seq_view(v@), n@),
{
    let mut i: usize = 0;
    while i < v.len()
        invariant
            0 <= i <= v.len(),
            forall|j: int| 0 <= j < i ==> seq_view(v@)[j].spec_name() != n@,
        decreases v.len() - i,
    {
        proof {
            lemma_seq_view_index(v@, i as int);
        }
        if v[i].name == *n {
            return true;
        }
        i = i + 1;
    }
    proof {
        lemma_seq_view_len(v@);
    }
    false
}

/// Appends each source entry whose name no destination entry of the same
/// category already carries; first seen wins.
pub fn merge_enums(dst: &mut Vec<Enum>, src: Vec<Enum>)
    ensures
        seq_view(final(dst)@) == merge_into(seq_view(old(dst)@), seq_view(src@)),
{
    let ghost s0 = src@;
    let ghost sv = seq_view(s0);
    let srclen = src.len();
    proof {
        assert(s0.len() == srclen as int);
    }
    let mut src = src;
    let mut k: usize = 0;
    proof {
        lemma_seq_view_len(s0);
        assert(sv.take(0int) =~= Seq::<SpecEnum>::empty());
    }
    while src.len() > 0
        invariant
            sv == seq_view(s0),
            sv.len() == s0.len(),
            k <= s0.len(),
            s0.len() <= usize::MAX,
            src@ == s0.skip(k as int),
            seq_view(dst@) == merge_into(seq_view(old(dst)@), sv.take(k as int)),
        decreases src.len(),
    {
        proof {
            lemma_seq_view_index(s0, k as int);
        }
        let x = src.remove(0);
        assert(x == s0[k as int]);
        let ghost d0 = dst@;
        if !enum_name_in(dst, &x.name) {
            dst.push(x);
            proof {
                lemma_seq_view_push(d0, x);
            }
        }
        proof {
            assert(sv.take(k + 1).drop_last() =~= sv.take(k as int));
            assert(sv.take(k + 1).last() == sv[k as int]);
            assert(src@ =~= s0.skip(k + 1));
        }
        k = k + 1;
    }
    proof {
        assert(sv.take(s0.len() as int) =~= sv);
    }
}

impl SpecNamed for SpecTypeAlias {
    open spec fn spec_name(self) -> Seq<char> {
        self.name
    }
}

fn alias_name_in(v: &Vec<TypeAlias>, n: &String) -> (b: bool)
    ensures
        b == name_in(seq_view(v@), n@),
{
    let mut i: usize = 0;
    while i < v.len()
        invariant
            0 <= i <= v.len(),
            forall|j: int| 0 <= j < i ==> seq_view(v@)[j].spec_name() != n@,
        decreases v.len() - i,
    {
        proof {
            lemma_seq_view_index(v@, i as int);
        }
        if v[i].name == *n {
            return true;
        }
        i = i + 1;
    }
    proof {
        lemma_seq_view_len(v@);
    }
    false
}

/// Appends each source entry whose name no destination entry of the same
/// category already carries; first seen wins.
pub fn merge_aliases(dst: &mut Vec<TypeAlias>, src: Vec<TypeAlias>)
    ensures
        seq_view(final(dst)@) == merge_into(seq_view(old(dst)@), seq_view(src@)),
{
    let ghost s0 = src@;
    let ghost sv = seq_view(s0);
    let srclen = src.len();
    proof {
        assert(s0.len() == srclen as int);
    }
    let mut src = src;
    let mut k: usize = 0;
    proof {
        lemma_seq_view_len(s0);
        assert(sv.take(0int) =~= Seq::<SpecTypeAlias>::empty());
    }
    while src.len() > 0
        invariant
            sv == seq_view(s0),
            sv.len() == s0.len(),
            k <= s0.len(),
            s0.len() <= usize::MAX,
            src@ == s0.skip(k as int),
            seq_view(dst@) == merge_into(seq_view(old(dst)@), sv.take(k as int)),
        decreases src.len(),
    {
        proof {
            lemma_seq_view_index(s0, k as int);
        }
        let x = src.remove(0);
        assert(x == s0[k as int]);
        let ghost d0 = dst@;
        if !alias_name_in(dst, &x.name) {
            dst.push(x);
            proof {
                lemma_seq_view_push(d0, x);
            }
        }
        proof {
            assert(sv.take(k + 1).drop_last() =~= sv.take(k as int));
            assert(sv.take(k + 1).last() == sv[k as int]);
            assert(src@ =~= s0.skip(k + 1));
        }
        k = k + 1;
    }
    proof {
        assert(sv.take(s0.len() as int) =~= sv);
    }
}

impl SpecNamed for SpecClass {
    open spec fn spec_name(self) -> Seq<char> {
        self.name
    }
}

fn class_name_in(v: &Vec<Class>, n: &String) -> (b: bool)
    ensures
        b == name_in(seq_view(v@), n@),
{
    let mut i: usize = 0;
    while i < v.len()
        invariant
            0 <= i <= v.len(),
            forall|j: int| 0 <= j < i ==> seq_view(v@)[j].spec_name() != n@,
        decreases v.len() - i,
    {
        proof {
            lemma_seq_view_index(v@, i as int);
        }
        if v[i].name == *n {
            return true;
        }
        i = i + 1;
    }
    proof {
        lemma_seq_view_len(v@);
    }
    false
}

/// Appends each source entry whose name no destination entry of the same
/// category already carries; first seen wins.
pub fn merge_classes(dst: &mut Vec<Class>, src: Vec<Class>)
    ensures
        seq_view(final(dst)@) == merge_into(seq_view(old(dst)@), seq_view(src@)),
{
    let ghost s0 = src@;
    let ghost sv = seq_view(s0);
    let srclen = src.len();
    proof {
        assert(s0.len() == srclen as int);
    }
    let mut src = src;
    let mut k: usize = 0;
    proof {
        lemma_seq_view_len(s0);
        assert(sv.take(0int) =~= Seq::<SpecClass>::empty());
    }
    while src.len() > 0
        invariant
            sv == seq_view(s0),
            sv.len() == s0.len(),
            k <= s0.len(),
            s0.len() <= usize::MAX,
            src@ == s0.skip(k as int),
            seq_view(dst@) == merge_into(seq_view(old(dst)@), sv.take(k as int)),
        decreases src.len(),
    {
        proof {
            lemma_seq_view_index(s0, k as int);
        }
        let x = src.remove(0);
        assert(x == s0[k as int]);
        let ghost d0 = dst@;
        if !class_name_in(dst, &x.name) {
            dst.push(x);
            proof {
                lemma_seq_view_push(d0, x);
            }
        }
        proof {
            assert(sv.take(k + 1).drop_last() =~= sv.take(k as int));
            assert(sv.take(k + 1).last() == sv[k as int]);
            assert(src@ =~= s0.skip(k + 1));
        }
        k = k + 1;
    }
    proof {
        assert(sv.take(s0.len() as int) =~= sv);
    }
}

impl SpecNamed for SpecFunction {
    open spec fn spec_name(self) -> Seq<char> {
        self.name
    }
}

fn function_name_in(v: &Vec<Function>, n: &String) -> (b: bool)
    ensures
        b == name_in(seq_view(v@), n@),
{
    let mut i: usize = 0;
    while i < v.len()
        invariant
            0 <= i <= v.len(),
            forall|j: int| 0 <= j < i ==> seq_view(v@)[j].spec_name() != n@,
        decreases v.len() - i,
    {
        proof {
            lemma_seq_view_index(v@, i as int);
        }
        if v[i].name == *n {
            return true;
        }
        i = i + 1;
    }
    proof {
        lemma_seq_view_len(v@);
    }
    false
}

/// Appends each source entry whose name no destination entry of the same
/// category already carries; first seen wins.
pub fn merge_functions(dst: &mut Vec<Function>, src: Vec<Function>)
    ensures
        seq_view(final(dst)@) == merge_into(seq_view(old(dst)@), seq_view(src@)),
{
    let ghost s0 = src@;
    let ghost sv = seq_view(s0);
    let srclen = src.len();
    proof {
        assert(s0.len() == srclen as int);
    }
    let mut src = src;
    let mut k: usize = 0;
    proof {
        lemma_seq_view_len(s0);
        assert(sv.take(0int) =~= Seq::<SpecFunction>::empty());
    }
    while src.len() > 0
        invariant
            sv == seq_view(s0),
            sv.len() == s0.len(),
            k <= s0.len(),
            s0.len() <= usize::MAX,
            src@ == s0.skip(k as int),
            seq_view(dst@) == merge_into(seq_view(old(dst)@), sv.take(k as int)),
        decreases src.len(),
    {
        proof {
            lemma_seq_view_index(s0, k as int);
        }
        let x = src.remove(0);
        assert(x == s0[k as int]);
        let ghost d0 = dst@;
        if !function_name_in(dst, &x.name) {
            dst.push(x);
            proof {
                lemma_seq_view_push(d0, x);
            }
        }
        proof {
            assert(sv.take(k + 1).drop_last() =~= sv.take(k as int));
            assert(sv.take(k + 1).last() == sv[k as int]);
            assert(src@ =~= s0.skip(k + 1));
        }
        k = k + 1;
    }
    proof {
        assert(sv.take(s0.len() as int) =~= sv);
    }
}

/// The view of a namespace list has the list's length.
pub proof fn lemma_namespaces_view_len(s: Seq<Namespace>)
    ensures
        namespaces_view(s).len() == s.len(),
    decreases s.len(),
{
    if s.len() > 0 {
        lemma_namespaces_view_len(s.drop_last());
    }
}

/// The view of a namespace list indexes pointwise.
pub proof fn lemma_namespaces_view_index(s: Seq<Namespace>, i: int)
    requires
        0 <= i < s.len(),
    ensures
        namespaces_view(s)[i] == namespace_view(s[i]),
    decreases s.len(),
{
    lemma_namespaces_view_len(s.drop_last());
    if i < s.len() - 1 {
        lemma_namespaces_view_index(s.drop_last(), i);
    }
}

/// The view of a namespace list commutes with appending.
pub proof fn lemma_namespaces_view_push(s: Seq<Namespace>, x: Namespace)
    ensures
        namespaces_view(s.push(x)) == namespaces_view(s).push(namespace_view(x)),
{
    assert(s.push(x).drop_last() =~= s);
    assert(s.push(x).last() == x);
}

/// The view of a namespace list commutes with updating one position.
pub proof fn lemma_namespaces_view_update(s: Seq<Namespace>, i: int, x: Namespace)
    requires
        0 <= i < s.len(),
    ensures
        namespaces_view(s.update(i, x)) =~= namespaces_view(s).update(i, namespace_view(x)),
{
    lemma_namespaces_view_len(s);
    lemma_namespaces_view_len(s.update(i, x));
    assert forall|j: int| 0 <= j < s.len() implies namespaces_view(s.update(i, x))[j]
        == namespaces_view(s).update(i, namespace_view(x))[j] by {
        lemma_namespaces_view_index(s.update(i, x), j);
        lemma_namespaces_view_index(s, j);
    }
}

/// Finds the first namespace of this name, as `first_ns_idx` states.
pub fn find_ns(v: &Vec<Namespace>, n: &String) -> (r: Option<usize>)
    ensures
        match r {
            Option::Some(i) => i < v@.len() && first_ns_idx(namespaces_view(v@), n@) == i as int,
            Option::None => first_ns_idx(namespaces_view(v@), n@) == -1,
        },
{
    let mut i: usize = 0;
    proof {
        assert(namespaces_view(v@).skip(0int) =~= namespaces_view(v@));
    }
    while i < v.len()
        invariant
            0 <= i <= v.len(),
            first_ns_idx(namespaces_view(v@), n@) == if first_ns_idx(
                namespaces_view(v@).skip(i as int),
                n@,
            ) < 0 {
                -1
            } else {
                i + first_ns_idx(namespaces_view(v@).skip(i as int), n@)
            },
        decreases v.len() - i,
    {
        proof {
            lemma_namespaces_view_len(v@);
            lemma_namespaces_view_index(v@, i as int);
            assert(namespaces_view(v@).skip(i as int)[0] == namespaces_view(v@)[i as int]);
            assert(namespaces_view(v@).skip(i as int).drop_first() =~= namespaces_view(
                v@,
            ).skip(i + 1));
        }
        if v[i].name == *n {
            return Option::Some(i);
        }
        i = i + 1;
    }
    proof {
        lemma_namespaces_view_len(v@);
        assert(namespaces_view(v@).skip(i as int).len() == 0);
    }
    Option::None
}

/// Size of a namespace tree, the measure the merger's recursion descends.
pub open spec fn ns_size(n: Namespace) -> nat
    decreases n, 1int,
{
    1 + nss_size(n.namespaces@)
}

pub open spec fn nss_size(s: Seq<Namespace>) -> nat
    decreases s, 0int,
{
    if s.len() == 0 {
        0nat
    } else {
        ns_size(s[0]) + nss_size(s.drop_first())
    }
}

/// Merging two source lists one after the other merges their concatenation.
pub proof fn lemma_merge_ns_seq_append(d: Seq<SpecNamespace>, a: Seq<SpecNamespace>, b: Seq<SpecNamespace>)
    ensures
        merge_ns_seq(d, a + b) == merge_ns_seq(merge_ns_seq(d, a), b),
    decreases b.len(),
{
    if b.len() == 0 {
        assert(a + b =~= a);
    } else {
        assert((a + b).drop_last() =~= a + b.drop_last());
        assert((a + b).last() == b.last());
        lemma_merge_ns_seq_append(d, a, b.drop_last());
    }
}

proof fn lemma_namespaces_view_split_first(s: Seq<Namespace>)
    requires
        s.len() > 0,
    ensures
        namespaces_view(s) =~= seq![namespace_view(s[0])] + namespaces_view(s.drop_first()),
{
    lemma_namespaces_view_len(s);
    lemma_namespaces_view_len(s.drop_first());
    assert forall|j: int| 0 <= j < s.len() implies namespaces_view(s)[j] == (seq![
        namespace_view(s[0]),
    ] + namespaces_view(s.drop_first()))[j] by {
        lemma_namespaces_view_index(s, j);
        if j > 0 {
            lemma_namespaces_view_index(s.drop_first(), j - 1);
        }
    }
}

/// Folds each source namespace into the first same-named destination
/// namespace, recursively, or appends it.
pub fn merge_nested(dst: &mut Vec<Namespace>, src: Vec<Namespace>)
    ensures
        namespaces_view(final(dst)@) == merge_ns_seq(
            namespaces_view(old(dst)@),
            namespaces_view(src@),
        ),
    decreases nss_size(src@), 1int,
{
    let ghost s0 = src@;
    let mut rest = src;
    if rest.len() == 0 {
        return;
    }
    let sn = rest.remove(0);
    proof {
        assert(sn == s0[0]);
        assert(rest@ =~= s0.drop_first());
        assert(ns_size(sn) >= 1);
        lemma_namespaces_view_split_first(s0);
    }
    let ghost d0 = dst@;
    match find_ns(dst, &sn.name) {
        Option::Some(i) => {
            let mut d = dst.remove(i);
            merge_namespace(&mut d, sn);
            dst.insert(i, d);
            proof {
                assert(dst@ =~= d0.update(i as int, d));
                lemma_namespaces_view_index(d0, i as int);
                lemma_namespaces_view_update(d0, i as int, d);
            }
        },
        Option::None => {
            dst.push(sn);
            proof {
                lemma_namespaces_view_push(d0, sn);
            }
        },
    }
    proof {
        let snv = namespace_view(sn);
        assert(seq![snv].drop_last() =~= Seq::<SpecNamespace>::empty());
        assert(seq![snv].last() == snv);
        assert(merge_ns_seq(namespaces_view(d0), Seq::<SpecNamespace>::empty())
            == namespaces_view(d0));
        assert(namespaces_view(dst@) == merge_ns_seq(namespaces_view(d0), seq![snv]));
    }
    merge_nested(dst, rest);
    proof {
        lemma_merge_ns_seq_append(namespaces_view(d0), seq![namespace_view(sn)], namespaces_view(rest@));
    }
}

/// Folds `src` into `dst` in place, exactly as `merge_ns` states: name-keyed
/// collections merge first-seen-wins, nested namespaces recurse.
pub fn merge_namespace(dst: &mut Namespace, src: Namespace)
    ensures
        final(dst)@ == merge_ns(old(dst)@, src@),
    decreases ns_size(src), 0int,
{
    let ghost src0 = src;
    let Namespace { name: _, consts, globals, enums, aliases, classes, functions, namespaces } =
        src;
    merge_consts(&mut dst.consts, consts);
    merge_globals(&mut dst.globals, globals);
    merge_enums(&mut dst.enums, enums);
    merge_aliases(&mut dst.aliases, aliases);
    merge_classes(&mut dst.classes, classes);
    merge_functions(&mut dst.functions, functions);
    proof {
        assert(decreases_to!(src0 => namespaces));
    }
    merge_nested(&mut dst.namespaces, namespaces);
}

} // verus!
