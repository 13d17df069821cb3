//! Syntax trees.

use vstd::prelude::*;
use vstd::string::*;

verus! {

/// A source file.
#[derive(Debug, Clone, Copy, PartialEq, Eq, Structural, PartialOrd, Ord, Hash)]
pub struct FileId(pub u32);

/// A range of a source file.
#[derive(Debug, Clone, Copy, PartialEq, Eq, Structural)]
pub struct Span {
    pub file: FileId,
    pub start: u32,
    pub end: u32,
}

impl Span {
    pub fn new(file: FileId, start: u32, end: u32) -> (r: Span)
        ensures
            r == (Span { file, start, end }),
    {
        Span { file, start, end }
    }

    /// The empty range at the start of the first file.
    pub fn dummy() -> (r: Span)
        ensures
            r == (Span { file: FileId(0), start: 0, end: 0 }),
    {
        Span { file: FileId(0), start: 0, end: 0 }
    }
}

#[derive(Debug, Clone, Copy, PartialEq, Eq, Structural)]
pub enum BinOp {
    Add,
    Sub,
    Mul,
    Div,
    Mod,
    Eq,
    NotEq,
    Lt,
    LtEq,
    Gt,
    GtEq,
    And,
    Or,
}

#[derive(Debug, Clone, Copy, PartialEq, Eq, Structural)]
pub enum UnaryOp {
    Neg,
    Not,
}

#[derive(Debug, Clone, Copy, PartialEq, Eq, Structural)]
pub enum AssignOp {
    Eq,
    PlusEq,
    MinusEq,
    StarEq,
    SlashEq,
}

/// A name where it was written.
#[derive(Debug)]
pub struct Ident {
    pub name: String,
    pub span: Span,
}

/// A type parameter with its trait bounds.
#[derive(Debug)]
pub struct GenericParam {
    pub name: Ident,
    pub bounds: Vec<Ident>,
}

/// An `@name(args)` marker.
#[derive(Debug)]
pub struct Attribute {
    pub name: Ident,
    pub args: Vec<Ident>,
    pub span: Span,
}

/// A written type.
#[derive(Debug)]
pub struct TypeExpr {
    pub kind: TypeKind,
    pub span: Span,
}

/// The forms of a written type.
#[derive(Debug)]
pub enum TypeKind {
    Named { path: Vec<Ident>, args: Vec<TypeExpr> },
    Nullable(Box<TypeExpr>),
    ErrorUnion(Box<TypeExpr>),
    Fn { params: Vec<TypeExpr>, ret: Box<TypeExpr> },
    SelfType,
}

/// A parameter.
#[derive(Debug)]
pub struct Param {
    pub name: Ident,
    pub ty: TypeExpr,
    pub default: Option<Expr>,
    pub is_escaping: bool,
    pub is_consuming: bool,
    pub span: Span,
}

/// An expression.
#[derive(Debug)]
pub struct Expr {
    pub kind: ExprKind,
    pub span: Span,
}

/// The forms of an expression. A floating-point literal is held as the decimal
/// text that it prints as: an integral value has no fraction.
#[derive(Debug)]
pub enum ExprKind {
    Ident(String),
    Path(Vec<Ident>),
    Call { callee: Box<Expr>, args: Vec<Expr>, block: Option<Box<Expr>>, type_args: Vec<TypeExpr> },
    MethodCall {
        receiver: Box<Expr>,
        method: Ident,
        args: Vec<Expr>,
        block: Option<Box<Expr>>,
        type_args: Vec<TypeExpr>,
    },
    Member { receiver: Box<Expr>, name: Ident },
    SafeMember { receiver: Box<Expr>, name: Ident },
    SafeMethodCall {
        receiver: Box<Expr>,
        method: Ident,
        args: Vec<Expr>,
        block: Option<Box<Expr>>,
        type_args: Vec<TypeExpr>,
    },
    Index { receiver: Box<Expr>, index: Box<Expr> },
    Block(Block),
    Lambda { params: Vec<Param>, body: Block },
    Unary { op: UnaryOp, expr: Box<Expr> },
    Binary { op: BinOp, lhs: Box<Expr>, rhs: Box<Expr> },
    Try(Box<Expr>),
    Await(Box<Expr>),
    If { cond: Box<Expr>, then_b: Block, else_b: Option<Block>, let_binding: Option<LetBinding> },
    Case { scrutinee: Box<Expr>, arms: Vec<CaseArm> },
    Kwarg { key: Ident, value: Box<Expr> },
    Element(Element),
    Array(Vec<Expr>),
    MapLit(Vec<MapEntry>),
    Range { start: Box<Expr>, end: Box<Expr>, inclusive: bool },
    Str(Vec<StrPart>),
    Int(i64),
    Float(String),
    Bool(bool),
    Nil,
    Sym(String),
    AtIdent(String),
    SelfRef,
}

/// The `let pattern = value` of a conditional.
#[derive(Debug)]
pub struct LetBinding {
    pub pattern: Pattern,
    pub value: Box<Expr>,
}

/// A `key: value` pair of a map literal.
#[derive(Debug)]
pub struct MapEntry {
    pub key: Expr,
    pub value: Expr,
}

/// A part of a string literal.
#[derive(Debug)]
pub enum StrPart {
    Text(String),
    Interp(Box<Expr>),
    InterpFmt { expr: Box<Expr>, format_spec: String },
}

/// An arm of a `case`.
#[derive(Debug)]
pub struct CaseArm {
    pub pattern: Pattern,
    pub body: Block,
    pub span: Span,
}

/// A pattern.
#[derive(Debug)]
pub enum Pattern {
    Ctor { name: Ident, args: Vec<Pattern>, span: Span },
    Literal { value: Box<Expr>, span: Span },
    Wild { span: Span },
    Bind { name: Ident, span: Span },
}

/// Statements and an optional trailing expression.
#[derive(Debug)]
pub struct Block {
    pub stmts: Vec<Stmt>,
    pub trailing: Option<Box<Expr>>,
    pub span: Span,
}

/// A statement.
#[derive(Debug)]
pub enum Stmt {
    Let { name: Ident, ty: Option<TypeExpr>, value: Expr, span: Span, block_id: Option<u32> },
    Var { name: Ident, ty: Option<TypeExpr>, value: Expr, span: Span, block_id: Option<u32> },
    Expr(Expr),
    Return { value: Option<Expr>, span: Span },
    Emit { signal: Ident, args: Vec<Expr>, span: Span },
    Assign { target: Expr, op: AssignOp, value: Expr, span: Span },
    For { binding: Ident, iter: Expr, body: Block, span: Span },
    While { cond: Expr, body: Block, span: Span },
    Break { span: Span },
    Continue { span: Span },
    Batch { body: Block, span: Span },
}

/// An element of a view or widget tree.
#[derive(Debug)]
pub struct Element {
    pub path: Vec<Ident>,
    pub name: Ident,
    pub members: Vec<ElementMember>,
    pub span: Span,
}

/// What stands in an element body.
#[derive(Debug)]
pub enum ElementMember {
    Property { key: String, value: Expr, span: Span },
    Child(Element),
    Stmt(Stmt),
}

/// A field of a class, struct or enum variant.
#[derive(Debug)]
pub struct Field {
    pub name: Ident,
    pub ty: TypeExpr,
    pub default: Option<Expr>,
    pub is_pub: bool,
    pub is_mut: bool,
    pub weak: bool,
    pub unowned: bool,
    pub span: Span,
    pub block_id: Option<u32>,
}

/// A `prop`.
#[derive(Debug)]
pub struct PropertyDecl {
    pub name: Ident,
    pub ty: TypeExpr,
    pub notify: Option<Ident>,
    pub default: Option<Expr>,
    pub is_pub: bool,
    pub bindable: bool,
    pub binding: Option<Expr>,
    pub fresh: Option<Expr>,
    pub model: bool,
    pub constant: bool,
    pub span: Span,
    pub block_id: Option<u32>,
}

/// A `signal`.
#[derive(Debug)]
pub struct SignalDecl {
    pub name: Ident,
    pub params: Vec<Param>,
    pub is_pub: bool,
    pub span: Span,
}

/// A function.
#[derive(Debug)]
pub struct FnDecl {
    pub is_async: bool,
    pub name: Ident,
    pub generics: Vec<GenericParam>,
    pub params: Vec<Param>,
    pub return_ty: Option<TypeExpr>,
    pub body: Option<Block>,
    pub is_pub: bool,
    pub is_test: bool,
    pub display_name: Option<String>,
    pub attributes: Vec<Attribute>,
    pub span: Span,
}

/// A constructor.
#[derive(Debug)]
pub struct InitDecl {
    pub params: Vec<Param>,
    pub body: Block,
    pub span: Span,
}

/// A destructor.
#[derive(Debug)]
pub struct DeinitDecl {
    pub body: Block,
    pub span: Span,
}

/// A member of a class.
#[derive(Debug)]
pub enum ClassMember {
    Property(PropertyDecl),
    Signal(SignalDecl),
    Fn(FnDecl),
    Slot(FnDecl),
    Field(Field),
    Init(InitDecl),
    Deinit(DeinitDecl),
}

/// A class.
#[derive(Debug)]
pub struct ClassDecl {
    pub name: Ident,
    pub generics: Vec<GenericParam>,
    pub super_class: Option<TypeExpr>,
    pub members: Vec<ClassMember>,
    pub is_pub: bool,
    pub is_extern_value: bool,
    pub is_arc: bool,
    pub is_copyable: bool,
    pub span: Span,
}

/// A struct.
#[derive(Debug)]
pub struct StructDecl {
    pub name: Ident,
    pub fields: Vec<Field>,
    pub methods: Vec<FnDecl>,
    pub is_pub: bool,
    pub is_copyable: bool,
    pub span: Span,
}

/// A variant of an enum.
#[derive(Debug)]
pub struct EnumVariant {
    pub name: Ident,
    pub value: Option<Expr>,
    pub fields: Vec<Field>,
    pub is_pub: bool,
    pub span: Span,
}

/// An enum.
#[derive(Debug)]
pub struct EnumDecl {
    pub name: Ident,
    pub variants: Vec<EnumVariant>,
    pub is_pub: bool,
    pub is_extern: bool,
    pub is_error: bool,
    pub cpp_namespace: Option<String>,
    pub span: Span,
}

/// A flags type over an enum.
#[derive(Debug)]
pub struct FlagsDecl {
    pub name: Ident,
    pub of: Ident,
    pub is_pub: bool,
    pub is_extern: bool,
    pub cpp_namespace: Option<String>,
    pub span: Span,
}

/// `state` fields hold a property, `let` fields an object.
#[derive(Debug)]
pub enum StateFieldKind {
    Property { ty: TypeExpr },
    Object,
}

/// A state field of a view, widget or store.
#[derive(Debug)]
pub struct StateField {
    pub name: Ident,
    pub kind: StateFieldKind,
    pub init_expr: Expr,
    pub span: Span,
}

/// A QML view.
#[derive(Debug)]
pub struct ViewDecl {
    pub name: Ident,
    pub params: Vec<Param>,
    pub state_fields: Vec<StateField>,
    pub root: Element,
    pub is_pub: bool,
    pub span: Span,
}

/// A widget.
#[derive(Debug)]
pub struct WidgetDecl {
    pub name: Ident,
    pub params: Vec<Param>,
    pub state_fields: Vec<StateField>,
    pub root: Element,
    pub is_pub: bool,
    pub span: Span,
}

/// A `key: value` of a style.
#[derive(Debug)]
pub struct StyleEntry {
    pub key: String,
    pub value: Expr,
    pub span: Span,
}

/// A style is a list of entries or an expression over other styles.
#[derive(Debug)]
pub enum StyleBody {
    Lit(Vec<StyleEntry>),
    Alias(Expr),
}

/// A style.
#[derive(Debug)]
pub struct StyleDecl {
    pub name: Ident,
    pub body: StyleBody,
    pub is_pub: bool,
    pub span: Span,
}

/// A trait.
#[derive(Debug)]
pub struct TraitDecl {
    pub name: Ident,
    pub generics: Vec<GenericParam>,
    pub methods: Vec<FnDecl>,
    pub is_pub: bool,
    pub span: Span,
}

/// An implementation of a trait for a type.
#[derive(Debug)]
pub struct ImplDecl {
    pub trait_name: Ident,
    pub for_type: TypeExpr,
    pub methods: Vec<FnDecl>,
    pub span: Span,
}

/// A top-level constant.
#[derive(Debug)]
pub struct LetDecl {
    pub name: Ident,
    pub ty: TypeExpr,
    pub value: Expr,
    pub is_pub: bool,
    pub span: Span,
}

/// A declarative singleton.
#[derive(Debug)]
pub struct StoreDecl {
    pub name: Ident,
    pub state_fields: Vec<StateField>,
    pub members: Vec<ClassMember>,
    pub is_pub: bool,
    pub span: Span,
}

/// A named group of tests.
#[derive(Debug)]
pub struct SuiteDecl {
    pub name: String,
    pub tests: Vec<FnDecl>,
    pub span: Span,
}

/// A name in a selective import.
#[derive(Debug)]
pub struct UseName {
    pub name: Ident,
    pub alias: Option<Ident>,
}

/// A module import with an optional alias, or chosen names.
#[derive(Debug)]
pub enum UseKind {
    Module(Option<Ident>),
    Names(Vec<UseName>),
}

/// A `use`.
#[derive(Debug)]
pub struct UseDecl {
    pub path: Vec<Ident>,
    pub kind: UseKind,
    pub is_pub: bool,
    pub span: Span,
}

/// A `use qml`.
#[derive(Debug)]
pub struct UseQml {
    pub module_uri: String,
    pub alias: Option<Ident>,
    pub span: Span,
}

/// A top-level item.
#[derive(Debug)]
pub enum Item {
    Class(ClassDecl),
    Struct(StructDecl),
    Fn(FnDecl),
    View(ViewDecl),
    Widget(WidgetDecl),
    Style(StyleDecl),
    Use(UseDecl),
    UseQml(UseQml),
    Trait(TraitDecl),
    Impl(ImplDecl),
    Let(LetDecl),
    Enum(EnumDecl),
    Flags(FlagsDecl),
    Store(StoreDecl),
    Suite(SuiteDecl),
}

/// A source file, or several merged into one.
#[derive(Debug)]
pub struct Module {
    pub items: Vec<Item>,
    pub span: Span,
}


/// The signal that announces a change of the state field `name`.
pub open spec fn notify_name(name: Seq<char>) -> Seq<char> {
    name + "Changed"@
}

/// `<name>Changed`.
pub fn synth_notify_name(name: &str) -> (r: String)
    ensures
        r@ == notify_name(name@),
{
    name.to_owned().concat("Changed")
}

} // verus!
