//! What holds of the binding of a library: its public declarations stand in it,
//! each with its line, and nothing else does.

use crate::ast::{
    ClassDecl, ClassMember, Field, FnDecl, Item, Module, Param, StructDecl, TypeExpr, TypeKind,
};
use crate::library_qpi::{
    library_qpi_text, param_texts, path_names, qpi_class, qpi_class_member, qpi_class_members,
    qpi_field, qpi_fields, qpi_fn_member, qpi_head_text, qpi_item, qpi_items, qpi_methods,
    qpi_params, qpi_struct, signature, type_text, type_texts,
};
use crate::manifest::Library;
use crate::meta_laws::{
    extends, lemma_ends_contains, lemma_extends_add, lemma_extends_contains, lemma_extends_trans,
};
use crate::text::{contains, join};
use vstd::prelude::*;

verus! {

// ---- types -------------------------------------------------------------------------

proof fn lemma_type_texts(v: Vec<TypeExpr>, n: int)
    requires
        0 <= n <= v@.len(),
    ensures
        type_texts(v, n).len() == n,
        forall|i: int| 0 <= i < n ==> #[trigger] type_texts(v, n)[i] == type_text(v[i]),
    decreases n,
{
    if n > 0 {
        lemma_type_texts(v, n - 1);
    }
}

/// The types, each as it is written.
pub open spec fn written(v: Seq<TypeExpr>) -> Seq<Seq<char>> {
    v.map_values(|t: TypeExpr| type_text(t))
}

/// A written type shows all of its parts, in the order of the source.
pub proof fn law_written_types_show_all_parts(t: TypeExpr)
    ensures
        match t.kind {
            TypeKind::Named { path, args } => {
                &&& args@.len() == 0 ==> type_text(t) == join(path_names(path@), "."@)
                &&& args@.len() > 0 ==> type_text(t) == join(path_names(path@), "."@) + "<"@ + join(
                    written(args@),
                    ", "@,
                ) + ">"@
            },
            TypeKind::Nullable(inner) => type_text(t) == type_text(*inner) + "?"@,
            TypeKind::ErrorUnion(inner) => type_text(t) == "!"@ + type_text(*inner),
            TypeKind::Fn { params, ret } => type_text(t) == "fn("@ + join(written(params@), ", "@)
                + ") -> "@ + type_text(*ret),
            TypeKind::SelfType => type_text(t) == "Self"@,
        },
{
    match t.kind {
        TypeKind::Named { path, args } => {
            lemma_type_texts(args, args@.len() as int);
            assert(type_texts(args, args@.len() as int) =~= written(args@));
        },
        TypeKind::Fn { params, ret } => {
            lemma_type_texts(params, params@.len() as int);
            assert(type_texts(params, params@.len() as int) =~= written(params@));
        },
        _ => {},
    }
}

// ---- lines -------------------------------------------------------------------------

/// A parameter list in brackets; nothing where there are no parameters.
pub open spec fn bracketed(params: Seq<Param>) -> Seq<char> {
    if params.len() == 0 {
        Seq::empty()
    } else {
        "("@ + join(
            params.map_values(|p: Param| p.name.name@ + ": "@ + type_text(p.ty)),
            ", "@,
        ) + ")"@
    }
}

/// A function behind its keyword: the name, the parameters and the type of what
/// it returns.
pub open spec fn fn_line(keyword: Seq<char>, f: FnDecl) -> Seq<char> {
    keyword + f.name.name@ + bracketed(f.params@) + (match f.return_ty {
        Some(t) => " "@ + type_text(t),
        None => Seq::empty(),
    }) + "\n"@
}

/// The line of a member of a class; there is none of a private member, of a
/// plain field, or of a constructor or destructor.
pub open spec fn member_line(m: ClassMember) -> Seq<char> {
    match m {
        ClassMember::Property(p) if p.is_pub => "  prop "@ + p.name.name@ + " : "@ + type_text(p.ty)
            + "\n"@,
        ClassMember::Signal(g) if g.is_pub => "  signal "@ + g.name.name@ + bracketed(g.params@)
            + "\n"@,
        ClassMember::Fn(f) if f.is_pub => fn_line("  fn "@, f),
        ClassMember::Slot(f) if f.is_pub => fn_line("  slot "@, f),
        _ => Seq::empty(),
    }
}

/// The line of a field of a struct; there is none of a private one.
pub open spec fn field_line(f: Field) -> Seq<char> {
    if f.is_pub && f.is_mut {
        "  var "@ + f.name.name@ + " : "@ + type_text(f.ty) + "\n"@
    } else if f.is_pub {
        "  let "@ + f.name.name@ + " : "@ + type_text(f.ty) + "\n"@
    } else {
        Seq::empty()
    }
}

proof fn lemma_params(s: Seq<char>, params: Seq<Param>)
    ensures
        qpi_params(s, params) == s + bracketed(params),
{
    let list = params.map_values(|p: Param| p.name.name@ + ": "@ + type_text(p.ty));
    assert(param_texts(params) =~= list);
    if params.len() == 0 {
        assert(s + Seq::<char>::empty() =~= s);
    } else {
        assert(s + "("@ + join(list, ", "@) + ")"@ =~= s + ("("@ + join(list, ", "@) + ")"@));
    }
}

proof fn lemma_signature(s: Seq<char>, keyword: Seq<char>, f: FnDecl)
    ensures
        signature(s + keyword + f.name.name@, f) == s + fn_line(keyword, f),
{
    let head = s + keyword + f.name.name@;
    lemma_params(head, f.params@);
    match f.return_ty {
        Some(t) => {
            assert(head + bracketed(f.params@) + " "@ + type_text(t) + "\n"@ =~= s + (keyword
                + f.name.name@ + bracketed(f.params@) + (" "@ + type_text(t)) + "\n"@));
        },
        None => {
            assert(head + bracketed(f.params@) + "\n"@ =~= s + (keyword + f.name.name@ + bracketed(
                f.params@,
            ) + Seq::<char>::empty() + "\n"@));
        },
    }
}

proof fn lemma_fn_member(s: Seq<char>, f: FnDecl, kw: Seq<char>, keyword: Seq<char>)
    requires
        keyword == "  "@ + kw + " "@,
    ensures
        qpi_fn_member(s, f, kw) == s + fn_line(keyword, f),
{
    assert(s + "  "@ + kw + " "@ =~= s + keyword);
    lemma_signature(s, keyword, f);
}

proof fn lemma_keywords()
    ensures
        "  fn "@ == "  "@ + "fn"@ + " "@,
        "  slot "@ == "  "@ + "slot"@ + " "@,
        "  var "@ == "  "@ + "var "@,
        "  let "@ == "  "@ + "let "@,
{
    reveal_strlit("  ");
    reveal_strlit(" ");
    reveal_strlit("fn");
    reveal_strlit("slot");
    reveal_strlit("var ");
    reveal_strlit("let ");
    reveal_strlit("  fn ");
    reveal_strlit("  slot ");
    reveal_strlit("  var ");
    reveal_strlit("  let ");
    assert("  fn "@ =~= "  "@ + "fn"@ + " "@);
    assert("  slot "@ =~= "  "@ + "slot"@ + " "@);
    assert("  var "@ =~= "  "@ + "var "@);
    assert("  let "@ =~= "  "@ + "let "@);
}

/// A member of a class adds its line, and nothing where it has none.
pub proof fn law_members_add_their_line(s: Seq<char>, m: ClassMember)
    ensures
        qpi_class_member(s, m) == s + member_line(m),
{
    lemma_keywords();
    assert(s + Seq::<char>::empty() =~= s);
    match m {
        ClassMember::Property(p) => {
            if p.is_pub {
                assert(s + "  prop "@ + p.name.name@ + " : "@ + type_text(p.ty) + "\n"@ =~= s
                    + member_line(m));
            }
        },
        ClassMember::Signal(g) => {
            if g.is_pub {
                lemma_params(s + "  signal "@ + g.name.name@, g.params@);
                assert(s + "  signal "@ + g.name.name@ + bracketed(g.params@) + "\n"@ =~= s
                    + member_line(m));
            }
        },
        ClassMember::Fn(f) => {
            lemma_fn_member(s, f, "fn"@, "  fn "@);
        },
        ClassMember::Slot(f) => {
            lemma_fn_member(s, f, "slot"@, "  slot "@);
        },
        _ => {},
    }
}

/// A field of a struct adds its line, and nothing where it has none.
pub proof fn law_fields_add_their_line(s: Seq<char>, f: Field)
    ensures
        qpi_field(s, f) == s + field_line(f),
{
    lemma_keywords();
    if f.is_pub && f.is_mut {
        assert(s + "  "@ + "var "@ + f.name.name@ + " : "@ + type_text(f.ty) + "\n"@ =~= s + (("  "@
            + "var "@) + f.name.name@ + " : "@ + type_text(f.ty) + "\n"@));
    } else if f.is_pub {
        assert(s + "  "@ + "let "@ + f.name.name@ + " : "@ + type_text(f.ty) + "\n"@ =~= s + (("  "@
            + "let "@) + f.name.name@ + " : "@ + type_text(f.ty) + "\n"@));
    } else {
        assert(s + Seq::<char>::empty() =~= s);
    }
}

// ---- declarations ------------------------------------------------------------------

proof fn lemma_members_extend(s: Seq<char>, v: Seq<ClassMember>, n: int)
    requires
        0 <= n <= v.len(),
    ensures
        extends(s, qpi_class_members(s, v, n)),
        forall|i: int|
            0 <= i < n ==> contains(qpi_class_members(s, v, n), #[trigger] member_line(v[i])),
    decreases n,
{
    if n > 0 {
        lemma_members_extend(s, v, n - 1);
        let before = qpi_class_members(s, v, n - 1);
        let now = qpi_class_members(s, v, n);
        let line = member_line(v[n - 1]);
        law_members_add_their_line(before, v[n - 1]);
        lemma_extends_add(before, line);
        lemma_ends_contains(before, line);
        lemma_extends_trans(s, before, now);
        assert forall|i: int| 0 <= i < n implies contains(now, #[trigger] member_line(v[i])) by {
            if i < n - 1 {
                lemma_extends_contains(before, now, member_line(v[i]));
            }
        }
    } else {
        assert(s.take(s.len() as int) =~= s);
    }
}

proof fn lemma_fields_extend(s: Seq<char>, v: Seq<Field>, n: int)
    requires
        0 <= n <= v.len(),
    ensures
        extends(s, qpi_fields(s, v, n)),
        forall|i: int| 0 <= i < n ==> contains(qpi_fields(s, v, n), #[trigger] field_line(v[i])),
    decreases n,
{
    if n > 0 {
        lemma_fields_extend(s, v, n - 1);
        let before = qpi_fields(s, v, n - 1);
        let now = qpi_fields(s, v, n);
        let line = field_line(v[n - 1]);
        law_fields_add_their_line(before, v[n - 1]);
        lemma_extends_add(before, line);
        lemma_ends_contains(before, line);
        lemma_extends_trans(s, before, now);
        assert forall|i: int| 0 <= i < n implies contains(now, #[trigger] field_line(v[i])) by {
            if i < n - 1 {
                lemma_extends_contains(before, now, field_line(v[i]));
            }
        }
    } else {
        assert(s.take(s.len() as int) =~= s);
    }
}

/// The line of a method of a struct; there is none of a private one.
pub open spec fn method_line(f: FnDecl) -> Seq<char> {
    if f.is_pub {
        fn_line("  fn "@, f)
    } else {
        Seq::empty()
    }
}

proof fn lemma_methods_extend(s: Seq<char>, v: Seq<FnDecl>, n: int)
    requires
        0 <= n <= v.len(),
    ensures
        extends(s, qpi_methods(s, v, n)),
        forall|i: int| 0 <= i < n ==> contains(qpi_methods(s, v, n), #[trigger] method_line(v[i])),
    decreases n,
{
    if n > 0 {
        lemma_methods_extend(s, v, n - 1);
        let before = qpi_methods(s, v, n - 1);
        let now = qpi_methods(s, v, n);
        let line = method_line(v[n - 1]);
        lemma_keywords();
        lemma_fn_member(before, v[n - 1], "fn"@, "  fn "@);
        assert(before + Seq::<char>::empty() =~= before);
        lemma_extends_add(before, line);
        lemma_ends_contains(before, line);
        lemma_extends_trans(s, before, now);
        assert forall|i: int| 0 <= i < n implies contains(now, #[trigger] method_line(v[i])) by {
            if i < n - 1 {
                lemma_extends_contains(before, now, method_line(v[i]));
            }
        }
    } else {
        assert(s.take(s.len() as int) =~= s);
    }
}

/// The keyword of a class: reference-counted classes and values have their own.
pub open spec fn keyword_of(c: ClassDecl) -> Seq<char> {
    match (c.is_arc, c.is_extern_value) {
        (true, _) => "arc "@,
        (false, true) => "extern value "@,
        (false, false) => "class "@,
    }
}

/// The first line of a class, with its base class where it has one.
pub open spec fn class_head(c: ClassDecl) -> Seq<char> {
    match c.super_class {
        Some(t) => keyword_of(c) + c.name.name@ + " < "@ + type_text(t) + " {\n"@,
        None => keyword_of(c) + c.name.name@ + " {\n"@,
    }
}

/// What a public declaration shows, one piece after another: the first line
/// of a class or struct and the line of each member.
pub open spec fn shows(text: Seq<char>, item: Item) -> bool {
    match item {
        Item::Class(c) => {
            &&& contains(text, class_head(c))
            &&& forall|i: int|
                0 <= i < c.members@.len() ==> contains(text, #[trigger] member_line(c.members@[i]))
        },
        Item::Struct(d) => {
            &&& contains(text, "struct "@ + d.name.name@ + " {\n"@)
            &&& forall|i: int|
                0 <= i < d.fields@.len() ==> contains(text, #[trigger] field_line(d.fields@[i]))
            &&& forall|i: int|
                0 <= i < d.methods@.len() ==> contains(text, #[trigger] method_line(d.methods@[i]))
        },
        Item::Fn(f) => contains(text, fn_line("fn "@, f)),
        _ => true,
    }
}

/// The declaration can be seen from outside the library.
pub open spec fn is_shown(item: Item) -> bool {
    match item {
        Item::Class(c) => c.is_pub,
        Item::Struct(d) => d.is_pub,
        Item::Fn(f) => f.is_pub,
        _ => false,
    }
}

proof fn lemma_class(s: Seq<char>, c: ClassDecl)
    ensures
        extends(s, qpi_class(s, c)),
        shows(qpi_class(s, c), Item::Class(c)),
{
    let text = qpi_class(s, c);
    let head = s + class_head(c);
    match c.super_class {
        Some(t) => {
            assert(s + keyword_of(c) + c.name.name@ + " < "@ + type_text(t) + " {\n"@ =~= head);
        },
        None => {
            assert(s + keyword_of(c) + c.name.name@ + " {\n"@ =~= head);
        },
    }
    let n = c.members@.len() as int;
    let body = qpi_class_members(head, c.members@, n);
    lemma_members_extend(head, c.members@, n);
    lemma_extends_add(body, "}\n"@);
    lemma_extends_add(body + "}\n"@, "\n"@);
    lemma_extends_trans(body, body + "}\n"@, text);
    lemma_extends_trans(head, body, text);
    lemma_extends_add(s, class_head(c));
    lemma_extends_trans(s, head, text);
    lemma_ends_contains(s, class_head(c));
    lemma_extends_contains(head, text, class_head(c));
    assert forall|i: int| 0 <= i < n implies contains(text, #[trigger] member_line(c.members@[i])) by {
        lemma_extends_contains(body, text, member_line(c.members@[i]));
    }
}

proof fn lemma_struct(s: Seq<char>, d: StructDecl)
    ensures
        extends(s, qpi_struct(s, d)),
        shows(qpi_struct(s, d), Item::Struct(d)),
{
    let text = qpi_struct(s, d);
    let first = "struct "@ + d.name.name@ + " {\n"@;
    let head = s + first;
    assert(s + "struct "@ + d.name.name@ + " {\n"@ =~= head);
    let fields = qpi_fields(head, d.fields@, d.fields@.len() as int);
    let body = qpi_methods(fields, d.methods@, d.methods@.len() as int);
    lemma_fields_extend(head, d.fields@, d.fields@.len() as int);
    lemma_methods_extend(fields, d.methods@, d.methods@.len() as int);
    lemma_extends_add(body, "}\n"@);
    lemma_extends_add(body + "}\n"@, "\n"@);
    lemma_extends_trans(body, body + "}\n"@, text);
    lemma_extends_trans(fields, body, text);
    lemma_extends_trans(head, fields, text);
    lemma_extends_add(s, first);
    lemma_extends_trans(s, head, text);
    lemma_ends_contains(s, first);
    lemma_extends_contains(head, text, first);
    assert forall|i: int| 0 <= i < d.fields@.len() implies contains(
        text,
        #[trigger] field_line(d.fields@[i]),
    ) by {
        lemma_extends_contains(fields, text, field_line(d.fields@[i]));
    }
    assert forall|i: int| 0 <= i < d.methods@.len() implies contains(
        text,
        #[trigger] method_line(d.methods@[i]),
    ) by {
        lemma_extends_contains(body, text, method_line(d.methods@[i]));
    }
}

proof fn lemma_item(s: Seq<char>, item: Item)
    ensures
        extends(s, qpi_item(s, item)),
        is_shown(item) ==> shows(qpi_item(s, item), item),
        !is_shown(item) ==> qpi_item(s, item) == s,
{
    assert(s.take(s.len() as int) =~= s);
    match item {
        Item::Class(c) => {
            lemma_class(s, c);
        },
        Item::Struct(d) => {
            lemma_struct(s, d);
        },
        Item::Fn(f) => {
            lemma_signature(s, "fn "@, f);
            lemma_extends_add(s, fn_line("fn "@, f));
            lemma_ends_contains(s, fn_line("fn "@, f));
        },
        _ => {},
    }
}

proof fn lemma_shows_more(a: Seq<char>, b: Seq<char>, item: Item)
    requires
        extends(a, b),
        shows(a, item),
    ensures
        shows(b, item),
{
    match item {
        Item::Class(c) => {
            lemma_extends_contains(a, b, class_head(c));
            assert forall|i: int| 0 <= i < c.members@.len() implies contains(
                b,
                #[trigger] member_line(c.members@[i]),
            ) by {
                lemma_extends_contains(a, b, member_line(c.members@[i]));
            }
        },
        Item::Struct(d) => {
            lemma_extends_contains(a, b, "struct "@ + d.name.name@ + " {\n"@);
            assert forall|i: int| 0 <= i < d.fields@.len() implies contains(
                b,
                #[trigger] field_line(d.fields@[i]),
            ) by {
                lemma_extends_contains(a, b, field_line(d.fields@[i]));
            }
            assert forall|i: int| 0 <= i < d.methods@.len() implies contains(
                b,
                #[trigger] method_line(d.methods@[i]),
            ) by {
                lemma_extends_contains(a, b, method_line(d.methods@[i]));
            }
        },
        Item::Fn(f) => {
            lemma_extends_contains(a, b, fn_line("fn "@, f));
        },
        _ => {},
    }
}

proof fn lemma_items(s: Seq<char>, v: Seq<Item>, n: int)
    requires
        0 <= n <= v.len(),
    ensures
        extends(s, qpi_items(s, v, n)),
        forall|i: int| 0 <= i < n && is_shown(v[i]) ==> shows(qpi_items(s, v, n), #[trigger] v[i]),
    decreases n,
{
    if n > 0 {
        lemma_items(s, v, n - 1);
        let before = qpi_items(s, v, n - 1);
        let now = qpi_items(s, v, n);
        lemma_item(before, v[n - 1]);
        lemma_extends_trans(s, before, now);
        assert forall|i: int| 0 <= i < n && is_shown(v[i]) implies shows(now, #[trigger] v[i]) by {
            if i < n - 1 {
                lemma_shows_more(before, now, v[i]);
            }
        }
    } else {
        assert(s.take(s.len() as int) =~= s);
    }
}

/// The binding of a library names the library and its version, and shows every
/// public class, struct and function of it.
pub proof fn law_bindings_show_the_surface(library: Library, module: Module)
    ensures
        extends("# "@ + library.name@ + " v"@ + library.version@, library_qpi_text(library, module)),
        forall|i: int|
            0 <= i < module.items@.len() && is_shown(module.items@[i]) ==> shows(
                library_qpi_text(library, module),
                #[trigger] module.items@[i],
            ),
{
    let head = qpi_head_text(library.name@, library.version@);
    let first = "# "@ + library.name@ + " v"@ + library.version@;
    let more = first + " — auto-generated binding from `cute build` (library mode).\n"@;
    lemma_extends_add(first, " — auto-generated binding from `cute build` (library mode).\n"@);
    lemma_extends_add(more, "# Surface: pub classes / structs / fns.\n"@);
    lemma_extends_add(more + "# Surface: pub classes / structs / fns.\n"@, "\n"@);
    lemma_extends_trans(first, more, more + "# Surface: pub classes / structs / fns.\n"@);
    lemma_extends_trans(first, more + "# Surface: pub classes / structs / fns.\n"@, head);
    lemma_items(head, module.items@, module.items@.len() as int);
    lemma_extends_trans(first, head, library_qpi_text(library, module));
}

/// A library without public declarations has a binding with no declaration.
pub proof fn law_nothing_private_is_shown(library: Library, module: Module)
    requires
        forall|i: int| 0 <= i < module.items@.len() ==> !is_shown(#[trigger] module.items@[i]),
    ensures
        library_qpi_text(library, module) == qpi_head_text(library.name@, library.version@),
{
    lemma_nothing(
        qpi_head_text(library.name@, library.version@),
        module.items@,
        module.items@.len() as int,
    );
}

proof fn lemma_nothing(s: Seq<char>, v: Seq<Item>, n: int)
    requires
        0 <= n <= v.len(),
        forall|i: int| 0 <= i < v.len() ==> !is_shown(#[trigger] v[i]),
    ensures
        qpi_items(s, v, n) == s,
    decreases n,
{
    if n > 0 {
        lemma_nothing(s, v, n - 1);
        assert(!is_shown(v[n - 1]));
    }
}

} // verus!
