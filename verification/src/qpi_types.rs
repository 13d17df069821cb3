//! What is collected of C++ classes, and what is asked to be collected.

use crate::dict::Dict;
use vstd::prelude::*;

verus! {

#[derive(Debug, Clone)]
pub struct Method {
    pub name: String,
    pub params: Vec<Param>,
    pub return_ty: CuteType,
    /// The success flag that C++ returns through a pointer is part of the
    /// return type, and no parameter.
    pub lifted_bool_ok: bool,
}

#[derive(Debug, Clone)]
pub struct Param {
    pub name: String,
    pub ty: CuteType,
}

#[derive(Debug, Clone)]
pub enum CuteType {
    Named(String),
    Void,
}

#[derive(Debug)]
pub struct CollectedClass {
    pub spec: ClassSpec,
    pub methods: Vec<Method>,
    pub signals: Vec<Method>,
    pub properties: Vec<Property>,
    /// The base class that the header names.
    pub detected_super: Option<String>,
    pub enum_variants: Vec<EnumVariantInfo>,
}

#[derive(Debug, Clone)]
pub struct EnumVariantInfo {
    pub name: String,
    /// The text of the explicit value.
    pub value_text: Option<String>,
}

#[derive(Debug, Clone)]
pub struct Property {
    pub name: String,
    pub ty: CuteType,
}

/// Which declaration a class is bound by.
#[derive(Debug, Clone, Copy, PartialEq, Eq, Structural)]
pub enum ClassKind {
    Value,
    Object,
    Enum,
    Flags,
}

impl Default for ClassKind {
    fn default() -> (r: ClassKind)
        ensures
            r == ClassKind::Value,
    {
        ClassKind::Value
    }
}

/// What is asked of a class.
#[derive(Debug)]
pub struct ClassSpec {
    pub name: String,
    pub kind: ClassKind,
    /// The base class, where it is not the one that the header names.
    pub super_name: Option<String>,
    pub header: String,
    /// The methods to keep; all where there is no list.
    pub include_only: Option<Vec<String>>,
    /// The methods to drop, where there is no list of those to keep.
    pub exclude: Vec<String>,
    pub include_statics: bool,
    /// Parameter names by method, or by method and parameter types.
    pub params: Dict<Vec<String>>,
    pub comment: Option<String>,
    /// The enum that a flags type is over.
    pub flags_of: Option<String>,
    pub cpp_namespace: Option<String>,
}

// ---- models -----------------------------------------------------------------------

/// A type by its name.
pub enum Ty {
    Named(Seq<char>),
    Void,
}

pub struct ParamView {
    pub name: Seq<char>,
    pub ty: Ty,
}

pub struct MethodView {
    pub name: Seq<char>,
    pub params: Seq<ParamView>,
    pub ret: Ty,
    pub lifted: bool,
}

pub struct PropertyView {
    pub name: Seq<char>,
    pub ty: Ty,
}

pub open spec fn ty_view(t: CuteType) -> Ty {
    match t {
        CuteType::Named(s) => Ty::Named(s@),
        CuteType::Void => Ty::Void,
    }
}

pub open spec fn param_view(p: Param) -> ParamView {
    ParamView { name: p.name@, ty: ty_view(p.ty) }
}

pub open spec fn param_views(v: Seq<Param>) -> Seq<ParamView> {
    Seq::new(v.len(), |i: int| param_view(v[i]))
}

pub open spec fn method_view(m: Method) -> MethodView {
    MethodView {
        name: m.name@,
        params: param_views(m.params@),
        ret: ty_view(m.return_ty),
        lifted: m.lifted_bool_ok,
    }
}

pub open spec fn method_views(v: Seq<Method>) -> Seq<MethodView> {
    Seq::new(v.len(), |i: int| method_view(v[i]))
}

pub open spec fn property_views(v: Seq<Property>) -> Seq<PropertyView> {
    Seq::new(v.len(), |i: int| PropertyView { name: v[i].name@, ty: ty_view(v[i].ty) })
}

pub fn copy_type(t: &CuteType) -> (r: CuteType)
    ensures
        r == *t,
{
    match t {
        CuteType::Named(s) => CuteType::Named(s.clone()),
        CuteType::Void => CuteType::Void,
    }
}

pub fn copy_param(p: &Param) -> (r: Param)
    ensures
        r == *p,
{
    Param { name: p.name.clone(), ty: copy_type(&p.ty) }
}

/// The first `n` parameters.
pub fn take_params(v: &Vec<Param>, n: usize) -> (r: Vec<Param>)
    requires
        n <= v@.len(),
    ensures
        r@ == v@.take(n as int),
{
    let mut out: Vec<Param> = Vec::new();
    let mut i: usize = 0;
    while i < n
        invariant
            i <= n <= v@.len(),
            out@ == v@.take(i as int),
        decreases n - i,
    {
        out.push(copy_param(&v[i]));
        i += 1;
        assert(out@ =~= v@.take(i as int));
    }
    out
}

/// A method with the same content.
pub fn copy_method(m: &Method) -> (r: Method)
    ensures
        method_view(r) == method_view(*m),
{
    let params = take_params(&m.params, m.params.len());
    assert(params@ =~= m.params@);
    Method {
        name: m.name.clone(),
        params,
        return_ty: copy_type(&m.return_ty),
        lifted_bool_ok: m.lifted_bool_ok,
    }
}

} // verus!
