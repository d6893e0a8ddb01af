//! The types of Lua values: their parts, their equality and the questions asked of them.

use std::sync::Arc;
use vstd::prelude::*;

pub mod basic;
pub mod complex;
pub mod equality;
pub mod equivalence;
pub mod predicates;
pub mod traverse;
pub mod unions;

pub use basic::{
    AsyncState, BasicTypeKind, BasicTypeUnion, FileId, InFiled, LuaFloat, LuaSignatureId,
    LuaTypeDeclId, TextRange,
};

verus! {

/// A type of the Lua language.
#[derive(Debug)]
pub enum LuaType {
    Unknown,
    Any,
    Nil,
    Table,
    Userdata,
    Function,
    Thread,
    Boolean,
    String,
    Integer,
    Number,
    Io,
    SelfInfer,
    Global,
    Never,
    BooleanConst(bool),
    StringConst(String),
    IntegerConst(i64),
    FloatConst(LuaFloat),
    TableConst(InFiled),
    Ref(LuaTypeDeclId),
    Def(LuaTypeDeclId),
    Array(Arc<LuaArrayType>),
    Tuple(Arc<LuaTupleType>),
    DocFunction(Arc<LuaFunctionType>),
    Object(Arc<LuaObjectType>),
    Union(Arc<LuaUnionType>),
    Intersection(Arc<LuaIntersectionType>),
    Generic(Arc<LuaGenericType>),
    TableGeneric(Arc<Vec<LuaType>>),
    TplRef(Arc<GenericTpl>),
    StrTplRef(Arc<LuaStringTplType>),
    Variadic(Arc<VariadicType>),
    Signature(LuaSignatureId),
    Instance(Arc<LuaInstanceType>),
    DocStringConst(String),
    DocIntegerConst(i64),
    DocBooleanConst(bool),
    Namespace(String),
    Call(Arc<LuaAliasCallType>),
    MultiLineUnion(Arc<LuaMultiLineUnion>),
    TypeGuard(Arc<LuaType>),
    Language(String),
    ModuleRef(FileId),
    Conditional(Arc<LuaConditionalType>),
    Mapped(Arc<LuaMappedType>),
}

/// The key under which a member of a table is found.
#[derive(Debug)]
pub enum LuaMemberKey {
    NoKey,
    Integer(i64),
    Name(String),
    TypeKey(LuaType),
}

#[derive(Debug)]
pub struct LuaTupleType {
    pub types: Vec<LuaType>,
    pub status: LuaTupleStatus,
}

/// Whether a tuple was written down or worked out.
#[derive(Debug, Clone, Copy, PartialEq, Eq, Structural)]
pub enum LuaTupleStatus {
    DocResolve,
    InferResolve,
}

#[derive(Debug)]
pub struct LuaFunctionType {
    pub async_state: AsyncState,
    pub is_colon_define: bool,
    pub is_variadic: bool,
    pub generic_params: Vec<GenericTpl>,
    pub params: Vec<(String, Option<LuaType>)>,
    pub ret: LuaType,
}

/// The key of a field in the notation of an object type.
#[derive(Debug)]
pub enum LuaIndexAccessKey {
    Integer(i64),
    String(String),
    Type(LuaType),
}

#[derive(Debug)]
pub struct LuaObjectType {
    pub fields: Vec<(LuaMemberKey, LuaType)>,
    pub index_access: Vec<(LuaType, LuaType)>,
}

#[derive(Debug)]
pub enum LuaUnionType {
    Basic(BasicTypeUnion),
    Nullable(LuaType),
    Multi(LuaUnionMembers),
}

#[derive(Debug)]
pub struct LuaUnionMembers {
    pub types: Vec<LuaType>,
}

#[derive(Debug)]
pub struct LuaIntersectionType {
    pub types: Vec<LuaType>,
}

/// The built-in operators on types.
#[derive(Debug, Clone, Copy, PartialEq, Eq, Structural)]
pub enum LuaAliasCallKind {
    KeyOf,
    Index,
    Extends,
    Add,
    Sub,
    Select,
    Unpack,
    RawGet,
    Merge,
}

#[derive(Debug)]
pub struct LuaAliasCallType {
    pub call_kind: LuaAliasCallKind,
    pub operand: Vec<LuaType>,
}

#[derive(Debug)]
pub struct LuaGenericType {
    pub base: LuaTypeDeclId,
    pub params: Vec<LuaType>,
}

/// A run of values: several in a row, or any number of one type.
#[derive(Debug)]
pub enum VariadicType {
    Multi(Vec<LuaType>),
    Base(LuaType),
}

#[derive(Debug)]
pub struct LuaInstanceType {
    pub base: LuaType,
    pub range: InFiled,
}

#[derive(Debug, Clone, Copy, PartialEq, Eq, Structural)]
pub enum GenericTplId {
    Type(u32),
    Func(u32),
    ConditionalInfer(u32),
}

/// An attribute written on a generic parameter.
#[derive(Debug)]
pub struct LuaAttributeUse {
    pub id: LuaTypeDeclId,
    pub args: Vec<(String, Option<LuaType>)>,
}

#[derive(Debug)]
pub struct GenericParam {
    pub name: String,
    pub constraint: Option<LuaType>,
    pub default: Option<LuaType>,
    pub is_const: bool,
    pub attributes: Option<Vec<LuaAttributeUse>>,
}

#[derive(Debug)]
pub struct GenericTpl {
    pub tpl_id: GenericTplId,
    pub param: GenericParam,
}

#[derive(Debug)]
pub struct LuaStringTplType {
    pub prefix: String,
    pub tpl_id: GenericTplId,
    pub name: String,
    pub suffix: String,
    pub constraint: Option<LuaType>,
}

#[derive(Debug)]
pub struct LuaMultiLineUnion {
    pub unions: Vec<(LuaType, Option<String>)>,
}

#[derive(Debug)]
pub struct LuaArrayType {
    pub base: LuaType,
    pub len: LuaArrayLen,
}

/// What is known of the number of elements of an array.
#[derive(Debug, Clone, Copy, PartialEq, Eq, Structural)]
pub enum LuaArrayLen {
    Unbounded,
    Max(i64),
}

#[derive(Debug)]
pub struct LuaConditionalType {
    pub checked_type: LuaType,
    pub extends_type: LuaType,
    pub true_type: LuaType,
    pub false_type: LuaType,
    pub infer_params: Vec<GenericParam>,
    pub has_new: bool,
}

#[derive(Debug)]
pub struct LuaMappedType {
    pub param: (GenericTplId, GenericParam),
    pub value: LuaType,
    pub is_readonly: bool,
    pub is_optional: bool,
}

// ----------------------------------------------------------------------------
// The mathematical picture of a type.

/// What a `LuaType` stands for, with sequences in place of vectors and text in place of strings.
pub enum Ty {
    Unknown,
    Any,
    Nil,
    Table,
    Userdata,
    Function,
    Thread,
    Boolean,
    String,
    Integer,
    Number,
    Io,
    SelfInfer,
    Global,
    Never,
    BooleanConst(bool),
    StringConst(Seq<char>),
    IntegerConst(i64),
    FloatConst(u64),
    TableConst(InFiled),
    Ref(Seq<char>),
    Def(Seq<char>),
    Array(Box<ArrayTy>),
    Tuple(Box<TupleTy>),
    DocFunction(Box<FunctionTy>),
    Object(Box<ObjectTy>),
    Union(Box<UnionTy>),
    Intersection(Seq<Ty>),
    Generic(Box<GenericTy>),
    TableGeneric(Seq<Ty>),
    TplRef(Box<TplTy>),
    StrTplRef(Box<StrTplTy>),
    Variadic(Box<VariadicTy>),
    Signature(LuaSignatureId),
    Instance(Box<InstanceTy>),
    DocStringConst(Seq<char>),
    DocIntegerConst(i64),
    DocBooleanConst(bool),
    Namespace(Seq<char>),
    Call(Box<CallTy>),
    MultiLineUnion(Seq<(Ty, Option<Seq<char>>)>),
    TypeGuard(Box<Ty>),
    Language(Seq<char>),
    ModuleRef(FileId),
    Conditional(Box<ConditionalTy>),
    Mapped(Box<MappedTy>),
}

pub enum KeyTy {
    NoKey,
    Integer(i64),
    Name(Seq<char>),
    TypeKey(Box<Ty>),
}

pub struct ArrayTy {
    pub base: Ty,
    pub len: LuaArrayLen,
}

pub struct TupleTy {
    pub types: Seq<Ty>,
    pub status: LuaTupleStatus,
}

pub struct FunctionTy {
    pub async_state: AsyncState,
    pub is_colon_define: bool,
    pub is_variadic: bool,
    pub generic_params: Seq<TplTy>,
    pub params: Seq<(Seq<char>, Option<Ty>)>,
    pub ret: Ty,
}

pub struct ObjectTy {
    pub fields: Seq<(KeyTy, Ty)>,
    pub index_access: Seq<(Ty, Ty)>,
}

pub enum UnionTy {
    Basic(Seq<BasicTypeKind>),
    Nullable(Ty),
    Multi(Seq<Ty>),
}

pub struct GenericTy {
    pub base: Seq<char>,
    pub params: Seq<Ty>,
}

pub struct AttributeTy {
    pub id: Seq<char>,
    pub args: Seq<(Seq<char>, Option<Ty>)>,
}

pub struct ParamTy {
    pub name: Seq<char>,
    pub constraint: Option<Ty>,
    pub default: Option<Ty>,
    pub is_const: bool,
    pub attributes: Option<Seq<AttributeTy>>,
}

pub struct TplTy {
    pub tpl_id: GenericTplId,
    pub param: ParamTy,
}

pub struct StrTplTy {
    pub prefix: Seq<char>,
    pub tpl_id: GenericTplId,
    pub name: Seq<char>,
    pub suffix: Seq<char>,
    pub constraint: Option<Ty>,
}

pub enum VariadicTy {
    Multi(Seq<Ty>),
    Base(Ty),
}

pub struct InstanceTy {
    pub base: Ty,
    pub range: InFiled,
}

pub struct CallTy {
    pub call_kind: LuaAliasCallKind,
    pub operand: Seq<Ty>,
}

pub struct ConditionalTy {
    pub checked_type: Ty,
    pub extends_type: Ty,
    pub true_type: Ty,
    pub false_type: Ty,
    pub infer_params: Seq<ParamTy>,
    pub has_new: bool,
}

pub struct MappedTy {
    pub tpl_id: GenericTplId,
    pub param: ParamTy,
    pub value: Ty,
    pub is_readonly: bool,
    pub is_optional: bool,
}

pub open spec fn ty(t: LuaType) -> Ty
    decreases t,
{
    match t {
        LuaType::Unknown => Ty::Unknown,
        LuaType::Any => Ty::Any,
        LuaType::Nil => Ty::Nil,
        LuaType::Table => Ty::Table,
        LuaType::Userdata => Ty::Userdata,
        LuaType::Function => Ty::Function,
        LuaType::Thread => Ty::Thread,
        LuaType::Boolean => Ty::Boolean,
        LuaType::String => Ty::String,
        LuaType::Integer => Ty::Integer,
        LuaType::Number => Ty::Number,
        LuaType::Io => Ty::Io,
        LuaType::SelfInfer => Ty::SelfInfer,
        LuaType::Global => Ty::Global,
        LuaType::Never => Ty::Never,
        LuaType::BooleanConst(b) => Ty::BooleanConst(b),
        LuaType::StringConst(s) => Ty::StringConst(s@),
        LuaType::IntegerConst(i) => Ty::IntegerConst(i),
        LuaType::FloatConst(f) => Ty::FloatConst(f.bits),
        LuaType::TableConst(range) => Ty::TableConst(range),
        LuaType::Ref(id) => Ty::Ref(id@),
        LuaType::Def(id) => Ty::Def(id@),
        LuaType::Array(a) => Ty::Array(Box::new(a.model())),
        LuaType::Tuple(a) => Ty::Tuple(Box::new(a.model())),
        LuaType::DocFunction(a) => Ty::DocFunction(Box::new(a.model())),
        LuaType::Object(a) => Ty::Object(Box::new(a.model())),
        LuaType::Union(a) => Ty::Union(Box::new(a.model())),
        LuaType::Intersection(a) => Ty::Intersection(a.model()),
        LuaType::Generic(a) => Ty::Generic(Box::new(a.model())),
        LuaType::TableGeneric(a) => Ty::TableGeneric(tys(a@)),
        LuaType::TplRef(a) => Ty::TplRef(Box::new(a.model())),
        LuaType::StrTplRef(a) => Ty::StrTplRef(Box::new(a.model())),
        LuaType::Variadic(a) => Ty::Variadic(Box::new(a.model())),
        LuaType::Signature(id) => Ty::Signature(id),
        LuaType::Instance(a) => Ty::Instance(Box::new(a.model())),
        LuaType::DocStringConst(s) => Ty::DocStringConst(s@),
        LuaType::DocIntegerConst(i) => Ty::DocIntegerConst(i),
        LuaType::DocBooleanConst(b) => Ty::DocBooleanConst(b),
        LuaType::Namespace(s) => Ty::Namespace(s@),
        LuaType::Call(a) => Ty::Call(Box::new(a.model())),
        LuaType::MultiLineUnion(a) => Ty::MultiLineUnion(a.model()),
        LuaType::TypeGuard(a) => Ty::TypeGuard(Box::new(ty(*a))),
        LuaType::Language(s) => Ty::Language(s@),
        LuaType::ModuleRef(id) => Ty::ModuleRef(id),
        LuaType::Conditional(a) => Ty::Conditional(Box::new(a.model())),
        LuaType::Mapped(a) => Ty::Mapped(Box::new(a.model())),
    }
}

/// The type without parts of a kind.
pub open spec fn kind_ty(kind: BasicTypeKind) -> Ty {
    match kind {
        BasicTypeKind::Unknown => Ty::Unknown,
        BasicTypeKind::Any => Ty::Any,
        BasicTypeKind::Nil => Ty::Nil,
        BasicTypeKind::Table => Ty::Table,
        BasicTypeKind::Userdata => Ty::Userdata,
        BasicTypeKind::Function => Ty::Function,
        BasicTypeKind::Thread => Ty::Thread,
        BasicTypeKind::Boolean => Ty::Boolean,
        BasicTypeKind::String => Ty::String,
        BasicTypeKind::Integer => Ty::Integer,
        BasicTypeKind::Number => Ty::Number,
        BasicTypeKind::Io => Ty::Io,
        BasicTypeKind::SelfInfer => Ty::SelfInfer,
        BasicTypeKind::Global => Ty::Global,
        BasicTypeKind::Never => Ty::Never,
    }
}

pub open spec fn tys(s: Seq<LuaType>) -> Seq<Ty>
    decreases s,
{
    Seq::new(
        s.len(),
        |i: int|
            if 0 <= i < s.len() {
                ty(s[i])
            } else {
                Ty::Unknown
            },
    )
}

pub open spec fn opt_ty(t: Option<LuaType>) -> Option<Ty>
    decreases t,
{
    match t {
        Some(t) => Some(ty(t)),
        None => None,
    }
}

pub open spec fn key_ty(key: LuaMemberKey) -> KeyTy
    decreases key,
{
    match key {
        LuaMemberKey::NoKey => KeyTy::NoKey,
        LuaMemberKey::Integer(i) => KeyTy::Integer(i),
        LuaMemberKey::Name(s) => KeyTy::Name(s@),
        LuaMemberKey::TypeKey(t) => KeyTy::TypeKey(Box::new(ty(t))),
    }
}

/// Named types, such as the parameters of a function.
pub open spec fn named_tys(s: Seq<(String, Option<LuaType>)>) -> Seq<(Seq<char>, Option<Ty>)>
    decreases s,
{
    Seq::new(
        s.len(),
        |i: int|
            if 0 <= i < s.len() {
                (s[i].0@, opt_ty(s[i].1))
            } else {
                (Seq::<char>::empty(), None::<Ty>)
            },
    )
}

pub open spec fn field_tys(s: Seq<(LuaMemberKey, LuaType)>) -> Seq<(KeyTy, Ty)>
    decreases s,
{
    Seq::new(
        s.len(),
        |i: int|
            if 0 <= i < s.len() {
                (key_ty(s[i].0), ty(s[i].1))
            } else {
                (KeyTy::NoKey, Ty::Unknown)
            },
    )
}

pub open spec fn pair_tys(s: Seq<(LuaType, LuaType)>) -> Seq<(Ty, Ty)>
    decreases s,
{
    Seq::new(
        s.len(),
        |i: int|
            if 0 <= i < s.len() {
                (ty(s[i].0), ty(s[i].1))
            } else {
                (Ty::Unknown, Ty::Unknown)
            },
    )
}

/// The text of an optional string.
pub open spec fn opt_text(s: Option<String>) -> Option<Seq<char>> {
    match s {
        Some(s) => Some(s@),
        None => None,
    }
}

pub open spec fn line_tys(s: Seq<(LuaType, Option<String>)>) -> Seq<(Ty, Option<Seq<char>>)>
    decreases s,
{
    Seq::new(
        s.len(),
        |i: int|
            if 0 <= i < s.len() {
                (ty(s[i].0), opt_text(s[i].1))
            } else {
                (Ty::Unknown, None::<Seq<char>>)
            },
    )
}

pub open spec fn tpl_tys(s: Seq<GenericTpl>) -> Seq<TplTy>
    decreases s,
{
    Seq::new(
        s.len(),
        |i: int|
            if 0 <= i < s.len() {
                s[i].model()
            } else {
                arbitrary()
            },
    )
}

pub open spec fn param_tys(s: Seq<GenericParam>) -> Seq<ParamTy>
    decreases s,
{
    Seq::new(
        s.len(),
        |i: int|
            if 0 <= i < s.len() {
                s[i].model()
            } else {
                arbitrary()
            },
    )
}

pub open spec fn attribute_tys(s: Seq<LuaAttributeUse>) -> Seq<AttributeTy>
    decreases s,
{
    Seq::new(
        s.len(),
        |i: int|
            if 0 <= i < s.len() {
                AttributeTy { id: s[i].id@, args: named_tys(s[i].args@) }
            } else {
                arbitrary()
            },
    )
}

impl LuaArrayType {
    pub open spec fn model(self) -> ArrayTy
        decreases self,
    {
        ArrayTy { base: ty(self.base), len: self.len }
    }
}

impl LuaTupleType {
    pub open spec fn model(self) -> TupleTy
        decreases self,
    {
        TupleTy { types: tys(self.types@), status: self.status }
    }
}

impl LuaFunctionType {
    pub open spec fn model(self) -> FunctionTy
        decreases self,
    {
        FunctionTy {
            async_state: self.async_state,
            is_colon_define: self.is_colon_define,
            is_variadic: self.is_variadic,
            generic_params: tpl_tys(self.generic_params@),
            params: named_tys(self.params@),
            ret: ty(self.ret),
        }
    }
}

impl LuaObjectType {
    pub open spec fn model(self) -> ObjectTy
        decreases self,
    {
        ObjectTy {
            fields: field_tys(self.fields@),
            index_access: pair_tys(self.index_access@),
        }
    }
}

impl LuaUnionMembers {
    pub open spec fn model(self) -> Seq<Ty>
        decreases self,
    {
        tys(self.types@)
    }
}

impl LuaUnionType {
    pub open spec fn model(self) -> UnionTy
        decreases self,
    {
        match self {
            LuaUnionType::Basic(kinds) => UnionTy::Basic(kinds@),
            LuaUnionType::Nullable(t) => UnionTy::Nullable(ty(t)),
            LuaUnionType::Multi(members) => UnionTy::Multi(members.model()),
        }
    }
}

impl LuaIntersectionType {
    pub open spec fn model(self) -> Seq<Ty>
        decreases self,
    {
        tys(self.types@)
    }
}

impl LuaAliasCallType {
    pub open spec fn model(self) -> CallTy
        decreases self,
    {
        CallTy { call_kind: self.call_kind, operand: tys(self.operand@) }
    }
}

impl LuaGenericType {
    pub open spec fn model(self) -> GenericTy
        decreases self,
    {
        GenericTy { base: self.base@, params: tys(self.params@) }
    }
}

impl VariadicType {
    pub open spec fn model(self) -> VariadicTy
        decreases self,
    {
        match self {
            VariadicType::Multi(types) => VariadicTy::Multi(tys(types@)),
            VariadicType::Base(t) => VariadicTy::Base(ty(t)),
        }
    }
}

impl LuaInstanceType {
    pub open spec fn model(self) -> InstanceTy
        decreases self,
    {
        InstanceTy { base: ty(self.base), range: self.range }
    }
}

impl GenericParam {
    pub open spec fn model(self) -> ParamTy
        decreases self,
    {
        ParamTy {
            name: self.name@,
            constraint: opt_ty(self.constraint),
            default: opt_ty(self.default),
            is_const: self.is_const,
            attributes: match self.attributes {
                Some(attributes) => Some(attribute_tys(attributes@)),
                None => None,
            },
        }
    }
}

impl GenericTpl {
    pub open spec fn model(self) -> TplTy
        decreases self,
    {
        TplTy { tpl_id: self.tpl_id, param: self.param.model() }
    }
}

impl LuaStringTplType {
    pub open spec fn model(self) -> StrTplTy
        decreases self,
    {
        StrTplTy {
            prefix: self.prefix@,
            tpl_id: self.tpl_id,
            name: self.name@,
            suffix: self.suffix@,
            constraint: opt_ty(self.constraint),
        }
    }
}

impl LuaMultiLineUnion {
    pub open spec fn model(self) -> Seq<(Ty, Option<Seq<char>>)>
        decreases self,
    {
        line_tys(self.unions@)
    }
}

impl LuaConditionalType {
    pub open spec fn model(self) -> ConditionalTy
        decreases self,
    {
        ConditionalTy {
            checked_type: ty(self.checked_type),
            extends_type: ty(self.extends_type),
            true_type: ty(self.true_type),
            false_type: ty(self.false_type),
            infer_params: param_tys(self.infer_params@),
            has_new: self.has_new,
        }
    }
}

impl LuaMappedType {
    pub open spec fn model(self) -> MappedTy
        decreases self,
    {
        MappedTy {
            tpl_id: self.param.0,
            param: self.param.1.model(),
            value: ty(self.value),
            is_readonly: self.is_readonly,
            is_optional: self.is_optional,
        }
    }
}

impl View for LuaType {
    type V = Ty;

    open spec fn view(&self) -> Ty {
        ty(*self)
    }
}

impl View for LuaMemberKey {
    type V = KeyTy;

    open spec fn view(&self) -> KeyTy {
        key_ty(*self)
    }
}

impl View for LuaTupleType {
    type V = TupleTy;

    open spec fn view(&self) -> TupleTy {
        self.model()
    }
}

impl View for LuaFunctionType {
    type V = FunctionTy;

    open spec fn view(&self) -> FunctionTy {
        self.model()
    }
}

impl View for LuaObjectType {
    type V = ObjectTy;

    open spec fn view(&self) -> ObjectTy {
        self.model()
    }
}

impl View for LuaUnionMembers {
    type V = Seq<Ty>;

    open spec fn view(&self) -> Seq<Ty> {
        self.model()
    }
}

impl View for LuaUnionType {
    type V = UnionTy;

    open spec fn view(&self) -> UnionTy {
        self.model()
    }
}

impl View for LuaIntersectionType {
    type V = Seq<Ty>;

    open spec fn view(&self) -> Seq<Ty> {
        self.model()
    }
}

impl View for LuaAliasCallType {
    type V = CallTy;

    open spec fn view(&self) -> CallTy {
        self.model()
    }
}

impl View for LuaGenericType {
    type V = GenericTy;

    open spec fn view(&self) -> GenericTy {
        self.model()
    }
}

impl View for VariadicType {
    type V = VariadicTy;

    open spec fn view(&self) -> VariadicTy {
        self.model()
    }
}

impl View for LuaInstanceType {
    type V = InstanceTy;

    open spec fn view(&self) -> InstanceTy {
        self.model()
    }
}

impl View for GenericParam {
    type V = ParamTy;

    open spec fn view(&self) -> ParamTy {
        self.model()
    }
}

impl View for GenericTpl {
    type V = TplTy;

    open spec fn view(&self) -> TplTy {
        self.model()
    }
}

impl View for LuaStringTplType {
    type V = StrTplTy;

    open spec fn view(&self) -> StrTplTy {
        self.model()
    }
}

impl View for LuaMultiLineUnion {
    type V = Seq<(Ty, Option<Seq<char>>)>;

    open spec fn view(&self) -> Seq<(Ty, Option<Seq<char>>)> {
        self.model()
    }
}

impl View for LuaArrayType {
    type V = ArrayTy;

    open spec fn view(&self) -> ArrayTy {
        self.model()
    }
}

impl View for LuaConditionalType {
    type V = ConditionalTy;

    open spec fn view(&self) -> ConditionalTy {
        self.model()
    }
}

impl View for LuaMappedType {
    type V = MappedTy;

    open spec fn view(&self) -> MappedTy {
        self.model()
    }
}

impl Clone for LuaType {
    fn clone(&self) -> (r: Self)
        ensures
            r == *self,
    {
        match self {
            LuaType::Unknown => LuaType::Unknown,
            LuaType::Any => LuaType::Any,
            LuaType::Nil => LuaType::Nil,
            LuaType::Table => LuaType::Table,
            LuaType::Userdata => LuaType::Userdata,
            LuaType::Function => LuaType::Function,
            LuaType::Thread => LuaType::Thread,
            LuaType::Boolean => LuaType::Boolean,
            LuaType::String => LuaType::String,
            LuaType::Integer => LuaType::Integer,
            LuaType::Number => LuaType::Number,
            LuaType::Io => LuaType::Io,
            LuaType::SelfInfer => LuaType::SelfInfer,
            LuaType::Global => LuaType::Global,
            LuaType::Never => LuaType::Never,
            LuaType::BooleanConst(b) => LuaType::BooleanConst(*b),
            LuaType::StringConst(s) => LuaType::StringConst(s.clone()),
            LuaType::IntegerConst(i) => LuaType::IntegerConst(*i),
            LuaType::FloatConst(f) => LuaType::FloatConst(*f),
            LuaType::TableConst(range) => LuaType::TableConst(*range),
            LuaType::Ref(id) => LuaType::Ref(id.clone()),
            LuaType::Def(id) => LuaType::Def(id.clone()),
            LuaType::Array(a) => LuaType::Array(a.clone()),
            LuaType::Tuple(a) => LuaType::Tuple(a.clone()),
            LuaType::DocFunction(a) => LuaType::DocFunction(a.clone()),
            LuaType::Object(a) => LuaType::Object(a.clone()),
            LuaType::Union(a) => LuaType::Union(a.clone()),
            LuaType::Intersection(a) => LuaType::Intersection(a.clone()),
            LuaType::Generic(a) => LuaType::Generic(a.clone()),
            LuaType::TableGeneric(a) => LuaType::TableGeneric(a.clone()),
            LuaType::TplRef(a) => LuaType::TplRef(a.clone()),
            LuaType::StrTplRef(a) => LuaType::StrTplRef(a.clone()),
            LuaType::Variadic(a) => LuaType::Variadic(a.clone()),
            LuaType::Signature(id) => LuaType::Signature(*id),
            LuaType::Instance(a) => LuaType::Instance(a.clone()),
            LuaType::DocStringConst(s) => LuaType::DocStringConst(s.clone()),
            LuaType::DocIntegerConst(i) => LuaType::DocIntegerConst(*i),
            LuaType::DocBooleanConst(b) => LuaType::DocBooleanConst(*b),
            LuaType::Namespace(s) => LuaType::Namespace(s.clone()),
            LuaType::Call(a) => LuaType::Call(a.clone()),
            LuaType::MultiLineUnion(a) => LuaType::MultiLineUnion(a.clone()),
            LuaType::TypeGuard(a) => LuaType::TypeGuard(a.clone()),
            LuaType::Language(s) => LuaType::Language(s.clone()),
            LuaType::ModuleRef(id) => LuaType::ModuleRef(*id),
            LuaType::Conditional(a) => LuaType::Conditional(a.clone()),
            LuaType::Mapped(a) => LuaType::Mapped(a.clone()),
        }
    }
}

impl Clone for LuaMemberKey {
    fn clone(&self) -> (r: Self)
        ensures
            r == *self,
    {
        match self {
            LuaMemberKey::NoKey => LuaMemberKey::NoKey,
            LuaMemberKey::Integer(i) => LuaMemberKey::Integer(*i),
            LuaMemberKey::Name(s) => LuaMemberKey::Name(s.clone()),
            LuaMemberKey::TypeKey(t) => LuaMemberKey::TypeKey(t.clone()),
        }
    }
}

} // verus!
