//! C++ declarations as a parser of headers reports them, and the types that
//! bindings give to C++ types.

use crate::dict::Dict;
use crate::qpi_types::{ty_view, CuteType, Ty};
use crate::text::{
    after_last, contains, has, has_prefix, replace, replaced, rest_after_last, same, starts_with,
    strip_prefix, trim, trim_end_char, trimmed, trimmed_end_char, without_prefix,
};
use crate::typesystem::texts;
use vstd::prelude::*;
use vstd::string::*;

verus! {

/// How a type is made of another one.
#[derive(Debug, Clone, Copy, PartialEq, Eq, Structural)]
pub enum TypeLayer {
    LValueReference,
    RValueReference,
    Pointer,
    Plain,
}

/// A C++ type.
#[derive(Debug)]
pub struct CppType {
    pub layer: TypeLayer,
    pub is_const: bool,
    pub display: String,
    /// The type with its aliases resolved.
    pub canonical: String,
    /// The type is declared as an enum.
    pub is_enum: bool,
    /// What a reference or a pointer leads to.
    pub pointee: Option<Box<CppType>>,
}

/// A parameter of a C++ method.
#[derive(Debug)]
pub struct CppParam {
    pub name: Option<String>,
    pub ty: Option<CppType>,
    pub has_default: bool,
}

#[derive(Debug, Clone, Copy, PartialEq, Eq, Structural)]
pub enum Access {
    Public,
    Protected,
    Private,
}

/// What a class declares.
#[derive(Debug)]
pub struct CppMember {
    /// The access that the declaration reports.
    pub access: Option<Access>,
    pub is_method: bool,
    pub name: Option<String>,
    pub is_static: bool,
    pub line: Option<u32>,
    pub result: Option<CppType>,
    pub params: Vec<CppParam>,
}

#[derive(Debug, Clone, Copy, PartialEq, Eq, Structural)]
pub enum TokenKind {
    Keyword,
    Identifier,
    Other,
}

#[derive(Debug)]
pub struct Token {
    pub kind: TokenKind,
    pub spelling: String,
    pub line: u32,
}

/// The body of a class.
#[derive(Debug)]
pub struct CppClass {
    /// It is a `class`, and no `struct`.
    pub is_class: bool,
    pub members: Vec<CppMember>,
    /// The types of the base classes, where they are known.
    pub bases: Vec<Option<String>>,
    /// The tokens of the declaration, where its range is known.
    pub tokens: Option<Vec<Token>>,
}

/// The type of a variable that is not const, without its references.
pub open spec fn plain(s: Seq<char>) -> Seq<char> {
    trim(replace(replace(s, "const "@, Seq::empty()), "&"@, Seq::empty()))
}

/// `s` without `const` and `&`.
pub fn strip_const(s: &str) -> (r: String)
    ensures
        r@ == plain(s@),
{
    proof {
        reveal_strlit("const ");
        reveal_strlit("&");
        reveal_strlit("");
        assert(""@ =~= Seq::<char>::empty());
    }
    let a = replaced(s, "const ", "");
    let b = replaced(a.as_str(), "&", "");
    trimmed(b.as_str())
}

/// The type that the references and pointers lead to.
pub open spec fn innermost(t: CppType) -> Option<CppType>
    decreases t,
{
    match t.layer {
        TypeLayer::Plain => Some(t),
        _ => match t.pointee {
            Some(p) => innermost(*p),
            None => None,
        },
    }
}

/// The type that is known under a name.
pub open spec fn known(map: Map<Seq<char>, Seq<char>>, k: Seq<char>) -> Option<Ty> {
    if map.contains_key(k) {
        Some(Ty::Named(map[k]))
    } else {
        None
    }
}

/// The first of two answers.
pub open spec fn or_else(a: Option<Ty>, b: Option<Ty>) -> Option<Ty> {
    if a is Some {
        a
    } else {
        b
    }
}

/// The enum in `QFlags<..>`, with its namespace or without it.
pub open spec fn known_flags(map: Map<Seq<char>, Seq<char>>, canonical: Seq<char>) -> Option<Ty> {
    match strip_prefix(canonical, "QFlags<"@) {
        Some(rest) => {
            let inner = trim(trim_end_char(rest, '>'));
            or_else(known(map, inner), known(map, after_last(inner, "::"@)))
        },
        None => None,
    }
}

/// The type that a type that is no reference and no pointer is bound to.
pub open spec fn mapped_plain(t: CppType, map: Map<Seq<char>, Seq<char>>) -> Option<Ty> {
    let key = plain(t.display@);
    let canonical = trim(plain(t.canonical@));
    if key == "void"@ {
        Some(Ty::Void)
    } else if contains(key, "chrono::"@) {
        None
    } else {
        or_else(
            known(map, trim(key)),
            or_else(
                known(map, canonical),
                or_else(
                    known_flags(map, canonical),
                    if t.is_enum || starts_with(t.canonical@, "QFlags<"@) {
                        Some(Ty::Named("Int"@))
                    } else {
                        None
                    },
                ),
            ),
        )
    }
}

/// The type that a C++ type is bound to. References and pointers do not
/// matter; an enum that is not known is a number; what else is not known has
/// no type.
pub open spec fn mapped(t: CppType, map: Map<Seq<char>, Seq<char>>) -> Option<Ty> {
    match innermost(t) {
        Some(u) => mapped_plain(u, map),
        None => None,
    }
}

/// An answer by its view.
pub open spec fn opt_ty(t: Option<CuteType>) -> Option<Ty> {
    match t {
        Some(t) => Some(ty_view(t)),
        None => None,
    }
}

/// The type that is known under a name.
pub fn lookup(map: &Dict<String>, k: &str) -> (r: Option<CuteType>)
    ensures
        opt_ty(r) == known(texts(map@), k@),
{
    match map.get(k) {
        Some(v) => Some(CuteType::Named(v.clone())),
        None => None,
    }
}

fn strip_layers(t: &CppType) -> (r: Option<&CppType>)
    ensures
        match r {
            Some(u) => innermost(*t) == Some(*u),
            None => innermost(*t) is None,
        },
    decreases *t,
{
    match t.layer {
        TypeLayer::Plain => Some(t),
        _ => match &t.pointee {
            Some(p) => strip_layers(p),
            None => None,
        },
    }
}

fn lookup_flags(map: &Dict<String>, canonical: &str) -> (r: Option<CuteType>)
    ensures
        opt_ty(r) == known_flags(texts(map@), canonical@),
{
    match without_prefix(canonical, "QFlags<") {
        Some(rest) => {
            let inner = trimmed(trimmed_end_char(rest.as_str(), '>').as_str());
            match lookup(map, inner.as_str()) {
                Some(t) => Some(t),
                None => lookup(map, rest_after_last(inner.as_str(), "::").as_str()),
            }
        },
        None => None,
    }
}

/// The type that a C++ type is bound to.
pub fn map_type(ty: &CppType, map: &Dict<String>) -> (r: Option<CuteType>)
    ensures
        opt_ty(r) == mapped(*ty, texts(map@)),
{
    let t = match strip_layers(ty) {
        Some(t) => t,
        None => {
            return None;
        },
    };
    let key = strip_const(t.display.as_str());
    if same(key.as_str(), "void") {
        return Some(CuteType::Void);
    }
    if has(key.as_str(), "chrono::") {
        return None;
    }
    match lookup(map, trimmed(key.as_str()).as_str()) {
        Some(t) => {
            return Some(t);
        },
        None => {},
    }
    let canonical = trimmed(strip_const(t.canonical.as_str()).as_str());
    match lookup(map, canonical.as_str()) {
        Some(t) => {
            return Some(t);
        },
        None => {},
    }
    match lookup_flags(map, canonical.as_str()) {
        Some(t) => {
            return Some(t);
        },
        None => {},
    }
    if t.is_enum || has_prefix(t.canonical.as_str(), "QFlags<") {
        return Some(CuteType::Named("Int".to_owned()));
    }
    None
}

// ---- laws -------------------------------------------------------------------------

/// A reference or a pointer is bound to what it leads to.
pub proof fn law_references_do_not_matter(t: CppType, map: Map<Seq<char>, Seq<char>>)
    requires
        t.layer != TypeLayer::Plain,
        t.pointee is Some,
    ensures
        mapped(t, map) == mapped(*t.pointee->0, map),
{
}

/// A type that is bound by name is never taken for a number, though it is an
/// enum.
pub proof fn law_bound_enums_keep_their_name(t: CppType, map: Map<Seq<char>, Seq<char>>)
    requires
        t.layer == TypeLayer::Plain,
        plain(t.display@) != "void"@,
        !contains(plain(t.display@), "chrono::"@),
        map.contains_key(trim(plain(t.display@))),
    ensures
        mapped(t, map) == Some(Ty::Named(map[trim(plain(t.display@))])),
{
}

} // verus!
