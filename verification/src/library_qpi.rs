//! Bindings of libraries: the public surface of a module as `.qpi` text.

use crate::ast::{
    ClassDecl, ClassMember, Field, FnDecl, Ident, Item, Module, Param, StructDecl, TypeExpr,
    TypeKind,
};
use crate::manifest::Library;
use crate::text::{join, joined, lemma_views_push, views};
use vstd::prelude::*;
use vstd::string::*;

verus! {

// ---- types in source notation -----------------------------------------------------

/// The names of a path.
pub open spec fn path_names(path: Seq<Ident>) -> Seq<Seq<char>> {
    Seq::new(path.len(), |i: int| path[i].name@)
}

/// A written type in source notation.
pub open spec fn type_text(t: TypeExpr) -> Seq<char>
    decreases t, 0int,
{
    match t.kind {
        TypeKind::Named { path, args } => if args@.len() == 0 {
            join(path_names(path@), "."@)
        } else {
            join(path_names(path@), "."@) + "<"@ + join(
                type_texts(args, args@.len() as int),
                ", "@,
            ) + ">"@
        },
        TypeKind::Nullable(inner) => type_text(*inner) + "?"@,
        TypeKind::ErrorUnion(inner) => "!"@ + type_text(*inner),
        TypeKind::Fn { params, ret } => "fn("@ + join(
            type_texts(params, params@.len() as int),
            ", "@,
        ) + ") -> "@ + type_text(*ret),
        TypeKind::SelfType => "Self"@,
    }
}

/// The first `n` types in source notation.
pub open spec fn type_texts(v: Vec<TypeExpr>, n: int) -> Seq<Seq<char>>
    decreases v, n,
{
    if 0 < n <= v@.len() {
        type_texts(v, n - 1).push(type_text(v[n - 1]))
    } else {
        Seq::empty()
    }
}

fn render_path(path: &Vec<Ident>) -> (r: String)
    ensures
        r@ == join(path_names(path@), "."@),
{
    let mut parts: Vec<String> = Vec::new();
    let mut i: usize = 0;
    while i < path.len()
        invariant
            i <= path@.len(),
            views(parts@) == path_names(path@).take(i as int),
        decreases path@.len() - i,
    {
        proof {
            lemma_views_push(parts@, path@[i as int].name);
        }
        parts.push(path[i].name.clone());
        i += 1;
        assert(views(parts@) =~= path_names(path@).take(i as int));
    }
    assert(views(parts@) =~= path_names(path@));
    joined(&parts, ".")
}

fn render_types(v: &Vec<TypeExpr>) -> (r: Vec<String>)
    ensures
        views(r@) == type_texts(*v, v@.len() as int),
    decreases *v,
{
    let mut out: Vec<String> = Vec::new();
    let mut i: usize = 0;
    assert(views(out@) =~= type_texts(*v, 0));
    while i < v.len()
        invariant
            i <= v@.len(),
            views(out@) == type_texts(*v, i as int),
        decreases v@.len() - i,
    {
        assert(decreases_to!(*v => v[i as int]));
        let s = render_qpi_type(&v[i]);
        proof {
            lemma_views_push(out@, s);
        }
        out.push(s);
        i += 1;
    }
    out
}

/// A written type in source notation.
pub fn render_qpi_type(t: &TypeExpr) -> (r: String)
    ensures
        r@ == type_text(*t),
    decreases *t,
{
    match &t.kind {
        TypeKind::Named { path, args } => {
            let p = render_path(path);
            if args.len() == 0 {
                return p;
            }
            let a = render_types(args);
            p.concat("<").concat(joined(&a, ", ").as_str()).concat(">")
        },
        TypeKind::Nullable(inner) => render_qpi_type(inner).concat("?"),
        TypeKind::ErrorUnion(inner) => {
            let i = render_qpi_type(inner);
            "!".to_owned().concat(i.as_str())
        },
        TypeKind::Fn { params, ret } => {
            let ps = render_types(params);
            let r = render_qpi_type(ret);
            "fn(".to_owned().concat(joined(&ps, ", ").as_str()).concat(") -> ").concat(r.as_str())
        },
        TypeKind::SelfType => "Self".to_owned(),
    }
}

// ---- declarations -----------------------------------------------------------------

/// The `name: type` pairs of parameters.
pub open spec fn param_texts(params: Seq<Param>) -> Seq<Seq<char>> {
    Seq::new(params.len(), |i: int| params[i].name.name@ + ": "@ + type_text(params[i].ty))
}

/// The parameter list of a function or signal: nothing where there are no parameters.
pub open spec fn qpi_params(s: Seq<char>, params: Seq<Param>) -> Seq<char> {
    if params.len() == 0 {
        s
    } else {
        s + "("@ + join(param_texts(params), ", "@) + ")"@
    }
}

pub fn write_qpi_params(s: String, params: &Vec<Param>) -> (r: String)
    ensures
        r@ == qpi_params(s@, params@),
{
    if params.len() == 0 {
        return s;
    }
    let mut parts: Vec<String> = Vec::new();
    let mut i: usize = 0;
    while i < params.len()
        invariant
            i <= params@.len(),
            views(parts@) == param_texts(params@).take(i as int),
        decreases params@.len() - i,
    {
        let part = params[i].name.name.clone().concat(": ").concat(
            render_qpi_type(&params[i].ty).as_str(),
        );
        proof {
            lemma_views_push(parts@, part);
        }
        parts.push(part);
        i += 1;
        assert(views(parts@) =~= param_texts(params@).take(i as int));
    }
    assert(views(parts@) =~= param_texts(params@));
    s.concat("(").concat(joined(&parts, ", ").as_str()).concat(")")
}

/// The rest of a function's line: its parameters and its return type.
pub open spec fn signature(s: Seq<char>, f: FnDecl) -> Seq<char> {
    let p = qpi_params(s, f.params@);
    match f.return_ty {
        Some(t) => p + " "@ + type_text(t) + "\n"@,
        None => p + "\n"@,
    }
}

fn write_signature(s: String, f: &FnDecl) -> (r: String)
    ensures
        r@ == signature(s@, *f),
{
    let p = write_qpi_params(s, &f.params);
    match &f.return_ty {
        Some(t) => p.concat(" ").concat(render_qpi_type(t).as_str()).concat("\n"),
        None => p.concat("\n"),
    }
}

/// A function.
pub open spec fn qpi_fn(s: Seq<char>, f: FnDecl) -> Seq<char> {
    signature(s + "fn "@ + f.name.name@, f)
}

pub fn emit_qpi_fn(s: String, f: &FnDecl) -> (r: String)
    ensures
        r@ == qpi_fn(s@, *f),
{
    write_signature(s.concat("fn ").concat(f.name.name.as_str()), f)
}

/// A function or slot inside a class or struct.
pub open spec fn qpi_fn_member(s: Seq<char>, f: FnDecl, kw: Seq<char>) -> Seq<char> {
    signature(s + "  "@ + kw + " "@ + f.name.name@, f)
}

pub fn emit_qpi_fn_member(s: String, f: &FnDecl, kw: &str) -> (r: String)
    ensures
        r@ == qpi_fn_member(s@, *f, kw@),
{
    write_signature(s.concat("  ").concat(kw).concat(" ").concat(f.name.name.as_str()), f)
}

/// A member of a class: nothing where it is private, or is a field, a
/// constructor or a destructor.
pub open spec fn qpi_class_member(s: Seq<char>, m: ClassMember) -> Seq<char> {
    match m {
        ClassMember::Property(p) => if p.is_pub {
            s + "  prop "@ + p.name.name@ + " : "@ + type_text(p.ty) + "\n"@
        } else {
            s
        },
        ClassMember::Signal(g) => if g.is_pub {
            qpi_params(s + "  signal "@ + g.name.name@, g.params@) + "\n"@
        } else {
            s
        },
        ClassMember::Fn(f) => if f.is_pub {
            qpi_fn_member(s, f, "fn"@)
        } else {
            s
        },
        ClassMember::Slot(f) => if f.is_pub {
            qpi_fn_member(s, f, "slot"@)
        } else {
            s
        },
        _ => s,
    }
}

fn emit_qpi_class_member(s: String, m: &ClassMember) -> (r: String)
    ensures
        r@ == qpi_class_member(s@, *m),
{
    match m {
        ClassMember::Property(p) => if p.is_pub {
            s.concat("  prop ").concat(p.name.name.as_str()).concat(" : ").concat(
                render_qpi_type(&p.ty).as_str(),
            ).concat("\n")
        } else {
            s
        },
        ClassMember::Signal(g) => if g.is_pub {
            write_qpi_params(s.concat("  signal ").concat(g.name.name.as_str()), &g.params).concat(
                "\n",
            )
        } else {
            s
        },
        ClassMember::Fn(f) => if f.is_pub {
            emit_qpi_fn_member(s, f, "fn")
        } else {
            s
        },
        ClassMember::Slot(f) => if f.is_pub {
            emit_qpi_fn_member(s, f, "slot")
        } else {
            s
        },
        _ => s,
    }
}

/// The first `n` members of a class.
pub open spec fn qpi_class_members(s: Seq<char>, v: Seq<ClassMember>, n: int) -> Seq<char>
    decreases n,
{
    if n <= 0 {
        s
    } else {
        qpi_class_member(qpi_class_members(s, v, n - 1), v[n - 1])
    }
}

fn emit_qpi_class_members(s: String, v: &Vec<ClassMember>) -> (r: String)
    ensures
        r@ == qpi_class_members(s@, v@, v@.len() as int),
{
    let ghost start = s@;
    let mut s = s;
    let mut i: usize = 0;
    while i < v.len()
        invariant
            i <= v@.len(),
            s@ == qpi_class_members(start, v@, i as int),
        decreases v@.len() - i,
    {
        s = emit_qpi_class_member(s, &v[i]);
        i += 1;
    }
    s
}

/// The keyword of a class.
pub open spec fn class_keyword(c: ClassDecl) -> Seq<char> {
    if c.is_arc {
        "arc "@
    } else if c.is_extern_value {
        "extern value "@
    } else {
        "class "@
    }
}

/// A class with its public members.
pub open spec fn qpi_class(s: Seq<char>, c: ClassDecl) -> Seq<char> {
    let head = s + class_keyword(c) + c.name.name@;
    let sup = match c.super_class {
        Some(t) => head + " < "@ + type_text(t),
        None => head,
    };
    qpi_class_members(sup + " {\n"@, c.members@, c.members@.len() as int) + "}\n"@ + "\n"@
}

pub fn emit_qpi_class(s: String, c: &ClassDecl) -> (r: String)
    ensures
        r@ == qpi_class(s@, *c),
{
    let kw: &str = if c.is_arc {
        "arc "
    } else if c.is_extern_value {
        "extern value "
    } else {
        "class "
    };
    let head = s.concat(kw).concat(c.name.name.as_str());
    let sup = match &c.super_class {
        Some(t) => head.concat(" < ").concat(render_qpi_type(t).as_str()),
        None => head,
    };
    emit_qpi_class_members(sup.concat(" {\n"), &c.members).concat("}\n").concat("\n")
}

/// A field of a struct: nothing where it is private.
pub open spec fn qpi_field(s: Seq<char>, f: Field) -> Seq<char> {
    if f.is_pub {
        let kw = if f.is_mut {
            "var "@
        } else {
            "let "@
        };
        s + "  "@ + kw + f.name.name@ + " : "@ + type_text(f.ty) + "\n"@
    } else {
        s
    }
}

fn emit_qpi_field(s: String, f: &Field) -> (r: String)
    ensures
        r@ == qpi_field(s@, *f),
{
    if f.is_pub {
        let kw: &str = if f.is_mut {
            "var "
        } else {
            "let "
        };
        s.concat("  ").concat(kw).concat(f.name.name.as_str()).concat(" : ").concat(
            render_qpi_type(&f.ty).as_str(),
        ).concat("\n")
    } else {
        s
    }
}

/// The first `n` fields of a struct.
pub open spec fn qpi_fields(s: Seq<char>, v: Seq<Field>, n: int) -> Seq<char>
    decreases n,
{
    if n <= 0 {
        s
    } else {
        qpi_field(qpi_fields(s, v, n - 1), v[n - 1])
    }
}

fn emit_qpi_fields(s: String, v: &Vec<Field>) -> (r: String)
    ensures
        r@ == qpi_fields(s@, v@, v@.len() as int),
{
    let ghost start = s@;
    let mut s = s;
    let mut i: usize = 0;
    while i < v.len()
        invariant
            i <= v@.len(),
            s@ == qpi_fields(start, v@, i as int),
        decreases v@.len() - i,
    {
        s = emit_qpi_field(s, &v[i]);
        i += 1;
    }
    s
}

/// A method of a struct: nothing where it is private.
pub open spec fn qpi_method(s: Seq<char>, f: FnDecl) -> Seq<char> {
    if f.is_pub {
        qpi_fn_member(s, f, "fn"@)
    } else {
        s
    }
}

fn emit_qpi_method(s: String, f: &FnDecl) -> (r: String)
    ensures
        r@ == qpi_method(s@, *f),
{
    if f.is_pub {
        emit_qpi_fn_member(s, f, "fn")
    } else {
        s
    }
}

/// The first `n` methods of a struct.
pub open spec fn qpi_methods(s: Seq<char>, v: Seq<FnDecl>, n: int) -> Seq<char>
    decreases n,
{
    if n <= 0 {
        s
    } else {
        qpi_method(qpi_methods(s, v, n - 1), v[n - 1])
    }
}

fn emit_qpi_methods(s: String, v: &Vec<FnDecl>) -> (r: String)
    ensures
        r@ == qpi_methods(s@, v@, v@.len() as int),
{
    let ghost start = s@;
    let mut s = s;
    let mut i: usize = 0;
    while i < v.len()
        invariant
            i <= v@.len(),
            s@ == qpi_methods(start, v@, i as int),
        decreases v@.len() - i,
    {
        s = emit_qpi_method(s, &v[i]);
        i += 1;
    }
    s
}

/// A struct with its public fields and methods.
pub open spec fn qpi_struct(s: Seq<char>, d: StructDecl) -> Seq<char> {
    let head = s + "struct "@ + d.name.name@ + " {\n"@;
    let fields = qpi_fields(head, d.fields@, d.fields@.len() as int);
    qpi_methods(fields, d.methods@, d.methods@.len() as int) + "}\n"@ + "\n"@
}

pub fn emit_qpi_struct(s: String, d: &StructDecl) -> (r: String)
    ensures
        r@ == qpi_struct(s@, *d),
{
    let head = s.concat("struct ").concat(d.name.name.as_str()).concat(" {\n");
    let fields = emit_qpi_fields(head, &d.fields);
    emit_qpi_methods(fields, &d.methods).concat("}\n").concat("\n")
}

/// An item: nothing where it is private, or is neither a class nor a struct nor
/// a function.
pub open spec fn qpi_item(s: Seq<char>, item: Item) -> Seq<char> {
    match item {
        Item::Class(c) => if c.is_pub {
            qpi_class(s, c)
        } else {
            s
        },
        Item::Struct(d) => if d.is_pub {
            qpi_struct(s, d)
        } else {
            s
        },
        Item::Fn(f) => if f.is_pub {
            qpi_fn(s, f)
        } else {
            s
        },
        _ => s,
    }
}

fn emit_qpi_item(s: String, item: &Item) -> (r: String)
    ensures
        r@ == qpi_item(s@, *item),
{
    match item {
        Item::Class(c) => if c.is_pub {
            emit_qpi_class(s, c)
        } else {
            s
        },
        Item::Struct(d) => if d.is_pub {
            emit_qpi_struct(s, d)
        } else {
            s
        },
        Item::Fn(f) => if f.is_pub {
            emit_qpi_fn(s, f)
        } else {
            s
        },
        _ => s,
    }
}

/// The first `n` items of a module.
pub open spec fn qpi_items(s: Seq<char>, v: Seq<Item>, n: int) -> Seq<char>
    decreases n,
{
    if n <= 0 {
        s
    } else {
        qpi_item(qpi_items(s, v, n - 1), v[n - 1])
    }
}

fn emit_qpi_items(s: String, v: &Vec<Item>) -> (r: String)
    ensures
        r@ == qpi_items(s@, v@, v@.len() as int),
{
    let ghost start = s@;
    let mut s = s;
    let mut i: usize = 0;
    while i < v.len()
        invariant
            i <= v@.len(),
            s@ == qpi_items(start, v@, i as int),
        decreases v@.len() - i,
    {
        s = emit_qpi_item(s, &v[i]);
        i += 1;
    }
    s
}

/// The comment at the head of a binding.
pub open spec fn qpi_head_text(name: Seq<char>, version: Seq<char>) -> Seq<char> {
    "# "@
        + name
        + " v"@
        + version
        + " — auto-generated binding from `cute build` (library mode).\n"@
        + "# Surface: pub classes / structs / fns.\n"@
        + "\n"@
}

fn qpi_head(name: &str, version: &str) -> (r: String)
    ensures
        r@ == qpi_head_text(name@, version@),
{
    "# ".to_owned()
        .concat(name)
        .concat(" v")
        .concat(version)
        .concat(" — auto-generated binding from `cute build` (library mode).\n")
        .concat("# Surface: pub classes / structs / fns.\n")
        .concat("\n")
}

/// The binding of a library.
pub open spec fn library_qpi_text(library: Library, module: Module) -> Seq<char> {
    qpi_items(
        qpi_head_text(library.name@, library.version@),
        module.items@,
        module.items@.len() as int,
    )
}

/// The binding of a library: the signatures of its public classes, structs and
/// functions.
pub fn generate_library_qpi(library: &Library, user_module: &Module) -> (r: String)
    ensures
        r@ == library_qpi_text(*library, *user_module),
{
    emit_qpi_items(
        qpi_head(library.name.as_str(), library.version.as_str()),
        &user_module.items,
    )
}

// ---- laws ---------------------------------------------------------------------------

/// The item is part of the public surface.
pub open spec fn is_surface(item: Item) -> bool {
    match item {
        Item::Class(c) => c.is_pub,
        Item::Struct(d) => d.is_pub,
        Item::Fn(f) => f.is_pub,
        _ => false,
    }
}

/// Items outside the public surface leave no trace in the binding: without
/// them it is the same.
pub proof fn law_private_items_leave_no_trace(s: Seq<char>, v: Seq<Item>, i: int, n: int)
    requires
        0 <= i < n <= v.len(),
        !is_surface(v[i]),
    ensures
        qpi_items(s, v, n) == qpi_items(s, v.remove(i), n - 1),
    decreases n,
{
    let w = v.remove(i);
    if n - 1 == i {
        lemma_items_prefix(s, v, w, i);
    } else {
        law_private_items_leave_no_trace(s, v, i, n - 1);
        assert(w[n - 2] == v[n - 1]);
    }
}

proof fn lemma_items_prefix(s: Seq<char>, v: Seq<Item>, w: Seq<Item>, n: int)
    requires
        0 <= n <= v.len(),
        n <= w.len(),
        forall|k: int| 0 <= k < n ==> v[k] == #[trigger] w[k],
    ensures
        qpi_items(s, v, n) == qpi_items(s, w, n),
    decreases n,
{
    if n > 0 {
        lemma_items_prefix(s, v, w, n - 1);
        assert(v[n - 1] == w[n - 1]);
    }
}

/// The body of a function does not show in the binding.
pub proof fn law_bodies_do_not_show(s: Seq<char>, f: FnDecl, g: FnDecl)
    requires
        f.name.name@ == g.name.name@,
        f.params == g.params,
        f.return_ty == g.return_ty,
    ensures
        qpi_fn(s, f) == qpi_fn(s, g),
        forall|kw: Seq<char>| #[trigger] qpi_fn_member(s, f, kw) == qpi_fn_member(s, g, kw),
{
}

} // verus!
