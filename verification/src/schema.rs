//! The schema model: passive data describing a normalized C++ API surface
//! (namespaces, classes, functions, fields, enums, constants, aliases),
//! together with its mathematical view used by all contracts.

use vstd::prelude::*;

verus! {

/// Qualifier shape of a resolved type: plain value, pointer, reference,
/// fixed-size array, or the supported two-level combinations.
#[derive(Clone, Copy, Debug, PartialEq, Eq, Structural)]
pub enum TypeSemantic {
    Value,
    Pointer,
    PointerToPointer,
    Reference,
    ReferenceToPointer,
    Array(usize),
    ArrayOfPointer(usize),
}

/// Member accessibility as represented in the schema. Private members are
/// never represented, so only these two appear.
#[derive(Clone, Copy, Debug, PartialEq, Eq, Structural)]
pub enum Access {
    Public,
    Protected,
}

/// How a function is invoked: a free function, an instance method, a static
/// method, or a virtual method.
#[derive(Clone, Copy, Debug, PartialEq, Eq, Structural)]
pub enum FunctionSemantic {
    Free,
    Method,
    Static,
    Virtual,
}

/// Base name of a resolved type: one of the fixed primitive tags, or a
/// qualified path for enum/typedef names, or a qualified path with template
/// arguments for record types.
pub enum TypeName {
    Void,
    Bool,
    Char,
    UChar,
    WChar,
    Short,
    UShort,
    Int,
    UInt,
    Long,
    ULong,
    LongLong,
    ULongLong,
    Float,
    Double,
    TypeName(Vec<String>),
    Class(Vec<String>, Vec<TypeRef>),
}

/// A resolved type: base name, qualifier shape, and constness of the
/// innermost pointee/referent reached after qualifier stripping.
pub struct TypeRef {
    pub name: TypeName,
    pub semantic: TypeSemantic,
    pub is_const: bool,
}

/// An evaluated literal. Floating-point literals are carried as IEEE-754
/// bit patterns (32-bit for `Float`, 64-bit for `Double`).
#[derive(Clone, Debug, PartialEq)]
pub enum Value {
    Int(i64),
    UInt(u64),
    Float(u32),
    Double(u64),
    Str(String),
}

/// A named compile-time constant.
pub struct Const {
    pub ty: TypeRef,
    pub name: String,
    pub value: Value,
}

/// An externally-linked variable declaration.
pub struct Global {
    pub ty: TypeRef,
    pub name: String,
}

/// One named enumerator with its evaluated value.
pub struct Variant {
    pub name: String,
    pub value: Value,
}

/// An enumeration with its underlying integral type and ordered variants.
pub struct Enum {
    pub name: String,
    pub underlying: TypeRef,
    pub variants: Vec<Variant>,
}

/// A type alias (`typedef` or `using`) and the type it names.
pub struct TypeAlias {
    pub name: String,
    pub ty: TypeRef,
}

/// One function parameter, in declaration order, with an optional evaluated
/// default value.
pub struct Param {
    pub ty: TypeRef,
    pub name: String,
    pub default: Option<Value>,
}

/// A data member of a class.
pub struct Field {
    pub access: Access,
    pub is_static: bool,
    pub name: String,
    pub ty: TypeRef,
}

/// A free function or a method. A `return_ty` of `None` stands for a
/// `void` return.
pub struct Function {
    pub name: String,
    pub params: Vec<Param>,
    pub return_ty: Option<TypeRef>,
    pub semantic: FunctionSemantic,
    pub access: Access,
    pub is_const: bool,
}

/// A class with the path of the header it came from and its member collections.
pub struct Class {
    pub header: String,
    pub name: String,
    pub consts: Vec<Const>,
    pub enums: Vec<Enum>,
    pub aliases: Vec<TypeAlias>,
    pub fields: Vec<Field>,
    pub methods: Vec<Function>,
}

/// A namespace: the unit the walker produces per translation unit and the
/// merger folds together. The root namespace of a run has an empty name.
pub struct Namespace {
    pub name: String,
    pub consts: Vec<Const>,
    pub globals: Vec<Global>,
    pub enums: Vec<Enum>,
    pub aliases: Vec<TypeAlias>,
    pub classes: Vec<Class>,
    pub functions: Vec<Function>,
    pub namespaces: Vec<Namespace>,
}

// ------------------------------------------------------------------
// Mathematical model: one ghost mirror per schema type, with strings as
// `Seq<char>` and collections as `Seq`.
// ------------------------------------------------------------------

pub ghost enum SpecTypeName {
    Void,
    Bool,
    Char,
    UChar,
    WChar,
    Short,
    UShort,
    Int,
    UInt,
    Long,
    ULong,
    LongLong,
    ULongLong,
    Float,
    Double,
    TypeName(Seq<Seq<char>>),
    Class(Seq<Seq<char>>, Seq<SpecTypeRef>),
}

pub ghost struct SpecTypeRef {
    pub name: SpecTypeName,
    pub semantic: TypeSemantic,
    pub is_const: bool,
}

pub ghost enum SpecValue {
    Int(i64),
    UInt(u64),
    Float(u32),
    Double(u64),
    Str(Seq<char>),
}

pub ghost struct SpecConst {
    pub ty: SpecTypeRef,
    pub name: Seq<char>,
    pub value: SpecValue,
}

pub ghost struct SpecGlobal {
    pub ty: SpecTypeRef,
    pub name: Seq<char>,
}

pub ghost struct SpecVariant {
    pub name: Seq<char>,
    pub value: SpecValue,
}

pub ghost struct SpecEnum {
    pub name: Seq<char>,
    pub underlying: SpecTypeRef,
    pub variants: Seq<SpecVariant>,
}

pub ghost struct SpecTypeAlias {
    pub name: Seq<char>,
    pub ty: SpecTypeRef,
}

pub ghost struct SpecParam {
    pub ty: SpecTypeRef,
    pub name: Seq<char>,
    pub default: Option<SpecValue>,
}

pub ghost struct SpecField {
    pub access: Access,
    pub is_static: bool,
    pub name: Seq<char>,
    pub ty: SpecTypeRef,
}

pub ghost struct SpecFunction {
    pub name: Seq<char>,
    pub params: Seq<SpecParam>,
    pub return_ty: Option<SpecTypeRef>,
    pub semantic: FunctionSemantic,
    pub access: Access,
    pub is_const: bool,
}

pub ghost struct SpecClass {
    pub header: Seq<char>,
    pub name: Seq<char>,
    pub consts: Seq<SpecConst>,
    pub enums: Seq<SpecEnum>,
    pub aliases: Seq<SpecTypeAlias>,
    pub fields: Seq<SpecField>,
    pub methods: Seq<SpecFunction>,
}

pub ghost struct SpecNamespace {
    pub name: Seq<char>,
    pub consts: Seq<SpecConst>,
    pub globals: Seq<SpecGlobal>,
    pub enums: Seq<SpecEnum>,
    pub aliases: Seq<SpecTypeAlias>,
    pub classes: Seq<SpecClass>,
    pub functions: Seq<SpecFunction>,
    pub namespaces: Seq<SpecNamespace>,
}

// ------------------------------------------------------------------
// Views from the executable types into the model.
// ------------------------------------------------------------------

/// The pointwise view of a sequence of viewable values.
pub open spec fn seq_view<T: View>(s: Seq<T>) -> Seq<T::V> {
    s.map_values(|x: T| x@)
}

pub proof fn lemma_seq_view_len<T: View>(s: Seq<T>)
    ensures
        seq_view(s).len() == s.len(),
{
}

pub proof fn lemma_seq_view_index<T: View>(s: Seq<T>, i: int)
    requires
        0 <= i < s.len(),
    ensures
        seq_view(s)[i] == s[i]@,
{
}

pub proof fn lemma_seq_view_push<T: View>(s: Seq<T>, x: T)
    ensures
        seq_view(s.push(x)) =~= seq_view(s).push(x@),
{
}

pub open spec fn strings_view(s: Seq<String>) -> Seq<Seq<char>> {
    seq_view(s)
}

pub open spec fn type_ref_view(t: TypeRef) -> SpecTypeRef
    decreases t,
{
    SpecTypeRef { name: type_name_view(t.name), semantic: t.semantic, is_const: t.is_const }
}

pub open spec fn type_name_view(n: TypeName) -> SpecTypeName
    decreases n,
{
    match n {
        TypeName::Void => SpecTypeName::Void,
        TypeName::Bool => SpecTypeName::Bool,
        TypeName::Char => SpecTypeName::Char,
        TypeName::UChar => SpecTypeName::UChar,
        TypeName::WChar => SpecTypeName::WChar,
        TypeName::Short => SpecTypeName::Short,
        TypeName::UShort => SpecTypeName::UShort,
        TypeName::Int => SpecTypeName::Int,
        TypeName::UInt => SpecTypeName::UInt,
        TypeName::Long => SpecTypeName::Long,
        TypeName::ULong => SpecTypeName::ULong,
        TypeName::LongLong => SpecTypeName::LongLong,
        TypeName::ULongLong => SpecTypeName::ULongLong,
        TypeName::Float => SpecTypeName::Float,
        TypeName::Double => SpecTypeName::Double,
        TypeName::TypeName(path) => SpecTypeName::TypeName(strings_view(path@)),
        TypeName::Class(path, args) => SpecTypeName::Class(
            strings_view(path@),
            type_refs_view(args@),
        ),
    }
}

pub open spec fn type_refs_view(s: Seq<TypeRef>) -> Seq<SpecTypeRef>
    decreases s,
{
    if s.len() == 0 {
        Seq::empty()
    } else {
        type_refs_view(s.drop_last()).push(type_ref_view(s.last()))
    }
}

impl View for TypeRef {
    type V = SpecTypeRef;

    open spec fn view(&self) -> SpecTypeRef {
        type_ref_view(*self)
    }
}

pub open spec fn opt_type_ref_view(o: Option<TypeRef>) -> Option<SpecTypeRef> {
    match o {
        Option::Some(t) => Option::Some(type_ref_view(t)),
        Option::None => Option::None,
    }
}

impl View for Value {
    type V = SpecValue;

    open spec fn view(&self) -> SpecValue {
        match *self {
            Value::Int(i) => SpecValue::Int(i),
            Value::UInt(u) => SpecValue::UInt(u),
            Value::Float(b) => SpecValue::Float(b),
            Value::Double(b) => SpecValue::Double(b),
            Value::Str(s) => SpecValue::Str(s@),
        }
    }
}

pub open spec fn opt_value_view(o: Option<Value>) -> Option<SpecValue> {
    match o {
        Option::Some(v) => Option::Some(v@),
        Option::None => Option::None,
    }
}

impl View for Const {
    type V = SpecConst;

    open spec fn view(&self) -> SpecConst {
        SpecConst { ty: self.ty@, name: self.name@, value: self.value@ }
    }
}

impl View for Global {
    type V = SpecGlobal;

    open spec fn view(&self) -> SpecGlobal {
        SpecGlobal { ty: self.ty@, name: self.name@ }
    }
}

impl View for Variant {
    type V = SpecVariant;

    open spec fn view(&self) -> SpecVariant {
        SpecVariant { name: self.name@, value: self.value@ }
    }
}

impl View for Enum {
    type V = SpecEnum;

    open spec fn view(&self) -> SpecEnum {
        SpecEnum {
            name: self.name@,
            underlying: self.underlying@,
            variants: seq_view(self.variants@),
        }
    }
}

impl View for TypeAlias {
    type V = SpecTypeAlias;

    open spec fn view(&self) -> SpecTypeAlias {
        SpecTypeAlias { name: self.name@, ty: self.ty@ }
    }
}

impl View for Param {
    type V = SpecParam;

    open spec fn view(&self) -> SpecParam {
        SpecParam { ty: self.ty@, name: self.name@, default: opt_value_view(self.default) }
    }
}

impl View for Field {
    type V = SpecField;

    open spec fn view(&self) -> SpecField {
        SpecField {
            access: self.access,
            is_static: self.is_static,
            name: self.name@,
            ty: self.ty@,
        }
    }
}

impl View for Function {
    type V = SpecFunction;

    open spec fn view(&self) -> SpecFunction {
        SpecFunction {
            name: self.name@,
            params: seq_view(self.params@),
            return_ty: opt_type_ref_view(self.return_ty),
            semantic: self.semantic,
            access: self.access,
            is_const: self.is_const,
        }
    }
}

impl View for Class {
    type V = SpecClass;

    open spec fn view(&self) -> SpecClass {
        SpecClass {
            header: self.header@,
            name: self.name@,
            consts: seq_view(self.consts@),
            enums: seq_view(self.enums@),
            aliases: seq_view(self.aliases@),
            fields: seq_view(self.fields@),
            methods: seq_view(self.methods@),
        }
    }
}

pub open spec fn namespace_view(n: Namespace) -> SpecNamespace
    decreases n,
{
    SpecNamespace {
        name: n.name@,
        consts: seq_view(n.consts@),
        globals: seq_view(n.globals@),
        enums: seq_view(n.enums@),
        aliases: seq_view(n.aliases@),
        classes: seq_view(n.classes@),
        functions: seq_view(n.functions@),
        namespaces: namespaces_view(n.namespaces@),
    }
}

pub open spec fn namespaces_view(s: Seq<Namespace>) -> Seq<SpecNamespace>
    decreases s,
{
    if s.len() == 0 {
        Seq::empty()
    } else {
        namespaces_view(s.drop_last()).push(namespace_view(s.last()))
    }
}

impl View for Namespace {
    type V = SpecNamespace;

    open spec fn view(&self) -> SpecNamespace {
        namespace_view(*self)
    }
}

} // verus!
