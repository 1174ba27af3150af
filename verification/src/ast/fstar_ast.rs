//! The F* AST intermediate representation: C types, expressions,
//! statements and declarations of a BPF programme, unindexed (the F*
//! indices are computed when the module is emitted).

use vstd::prelude::*;

verus! {

/// Width of an integer type.
#[derive(Debug, Clone, Copy, PartialEq, Eq, Structural)]
pub enum IntWidth {
    W8,
    W16,
    W32,
    W64,
}

/// The C types the AST level knows.
#[derive(Debug)]
pub enum CType {
    CInt(IntWidth),
    CUInt(IntWidth),
    CBool,
    CVoid,
    CPtr(Box<CType>),
    CPtrOrNull(Box<CType>),
    CStruct(StructDef),
    CArray(Box<CType>, usize),
}

/// A struct type with its fields in order.
#[derive(Debug)]
pub struct StructDef {
    pub name: String,
    pub fields: Vec<(String, CType)>,
}

/// Binary operators.
#[derive(Debug, Clone, Copy, PartialEq, Eq, Structural)]
pub enum BinOp {
    Add,
    Sub,
    Mul,
    Div,
    Mod,
    BitAnd,
    BitOr,
    BitXor,
    ShiftL,
    ShiftR,
    Eq,
    Ne,
    Lt,
    Le,
    Gt,
    Ge,
    LAnd,
    LOr,
}

/// Unary operators; the increments model the side effect, not the order
/// of evaluation.
#[derive(Debug, Clone, Copy, PartialEq, Eq, Structural)]
pub enum UnaryOp {
    Neg,
    BitNot,
    LNot,
    PreInc,
    PreDec,
}

/// An expression.
#[derive(Debug)]
pub enum Expr {
    IntLit(i64, IntWidth),
    UIntLit(u64, IntWidth),
    BoolLit(bool),
    VarRef(String, CType),
    BinOp(BinOp, Box<Expr>, Box<Expr>),
    UnaryOp(UnaryOp, Box<Expr>),
    Deref(Box<Expr>),
    AddrOf(Box<Expr>),
    FieldAccess(Box<Expr>, String),
    Cast(Box<Expr>, CType),
    Call(String, Vec<Expr>),
    /// `cond ? then : else`
    Ternary(Box<Expr>, Box<Expr>, Box<Expr>),
    ArraySubscript(Box<Expr>, Box<Expr>),
    StringLit(String),
    SizeOf(u64),
    /// A GNU statement expression: the statements, then the value.
    StmtExpr(Vec<Stmt>, Box<Expr>),
    InitList(Vec<Expr>),
}

/// One arm of a `switch`: its case value (`None` for `default`) and body.
#[derive(Debug)]
pub struct SwitchCase {
    pub value: Option<Expr>,
    pub body: Vec<Stmt>,
}

/// A statement.
#[derive(Debug)]
pub enum Stmt {
    /// Variable declaration with an optional initialiser.
    Declare(String, CType, Option<Expr>),
    /// `var = expr`
    Assign(String, Expr),
    If(Expr, Vec<Stmt>, Vec<Stmt>),
    Return(Option<Expr>),
    /// An expression evaluated for its effect.
    ExprStmt(Expr),
    Compound(Vec<Stmt>),
    Goto(String),
    Label(String, Box<Stmt>),
    Switch(Expr, Vec<SwitchCase>),
    Break,
}

/// A map definition.
#[derive(Debug)]
pub struct MapDef {
    pub name: String,
    pub map_type: String,
    pub key_type: CType,
    pub value_type: CType,
    pub max_entries: usize,
}

/// A BPF programme function.
#[derive(Debug)]
pub struct BpfProg {
    pub name: String,
    pub section: String,
    pub param_name: String,
    pub param_type: CType,
    pub return_type: CType,
    pub body: Vec<Stmt>,
}

/// A whole translation unit's maps and programmes.
#[derive(Debug)]
pub struct BpfObject {
    pub source_file: String,
    pub maps: Vec<MapDef>,
    pub progs: Vec<BpfProg>,
}

// ---------------------------------------------------------------------
// Views: the same trees with strings as character sequences and vectors
// as sequences.

pub enum CTypeView {
    CInt(IntWidth),
    CUInt(IntWidth),
    CBool,
    CVoid,
    CPtr(Box<CTypeView>),
    CPtrOrNull(Box<CTypeView>),
    CStruct(Seq<char>, Seq<(Seq<char>, CTypeView)>),
    CArray(Box<CTypeView>, usize),
}

pub enum ExprView {
    IntLit(i64, IntWidth),
    UIntLit(u64, IntWidth),
    BoolLit(bool),
    VarRef(Seq<char>, CTypeView),
    BinOp(BinOp, Box<ExprView>, Box<ExprView>),
    UnaryOp(UnaryOp, Box<ExprView>),
    Deref(Box<ExprView>),
    AddrOf(Box<ExprView>),
    FieldAccess(Box<ExprView>, Seq<char>),
    Cast(Box<ExprView>, CTypeView),
    Call(Seq<char>, Seq<ExprView>),
    Ternary(Box<ExprView>, Box<ExprView>, Box<ExprView>),
    ArraySubscript(Box<ExprView>, Box<ExprView>),
    StringLit(Seq<char>),
    SizeOf(u64),
    StmtExpr(Seq<StmtView>, Box<ExprView>),
    InitList(Seq<ExprView>),
}

pub struct CaseView {
    pub value: Option<ExprView>,
    pub body: Seq<StmtView>,
}

pub enum StmtView {
    Declare(Seq<char>, CTypeView, Option<ExprView>),
    Assign(Seq<char>, ExprView),
    If(ExprView, Seq<StmtView>, Seq<StmtView>),
    Return(Option<ExprView>),
    ExprStmt(ExprView),
    Compound(Seq<StmtView>),
    Goto(Seq<char>),
    Label(Seq<char>, Box<StmtView>),
    Switch(ExprView, Seq<CaseView>),
    Break,
}

pub open spec fn ctype_view(t: CType) -> CTypeView
    decreases t,
{
    match t {
        CType::CInt(w) => CTypeView::CInt(w),
        CType::CUInt(w) => CTypeView::CUInt(w),
        CType::CBool => CTypeView::CBool,
        CType::CVoid => CTypeView::CVoid,
        CType::CPtr(b) => CTypeView::CPtr(Box::new(ctype_view(*b))),
        CType::CPtrOrNull(b) => CTypeView::CPtrOrNull(Box::new(ctype_view(*b))),
        CType::CStruct(d) => CTypeView::CStruct(d.name@, fields_view(d.fields@)),
        CType::CArray(b, n) => CTypeView::CArray(Box::new(ctype_view(*b)), n),
    }
}

pub open spec fn fields_view(s: Seq<(String, CType)>) -> Seq<(Seq<char>, CTypeView)>
    decreases s,
{
    if s.len() == 0 {
        Seq::empty()
    } else {
        seq![(s[0].0@, ctype_view(s[0].1))] + fields_view(s.drop_first())
    }
}

pub open spec fn opt_expr_view(e: Option<Expr>) -> Option<ExprView>
    decreases e,
{
    match e {
        Some(x) => Some(expr_view(x)),
        None => None,
    }
}

pub open spec fn expr_view(e: Expr) -> ExprView
    decreases e,
{
    match e {
        Expr::IntLit(v, w) => ExprView::IntLit(v, w),
        Expr::UIntLit(v, w) => ExprView::UIntLit(v, w),
        Expr::BoolLit(b) => ExprView::BoolLit(b),
        Expr::VarRef(n, t) => ExprView::VarRef(n@, ctype_view(t)),
        Expr::BinOp(op, a, b) => ExprView::BinOp(op, Box::new(expr_view(*a)), Box::new(expr_view(*b))),
        Expr::UnaryOp(op, a) => ExprView::UnaryOp(op, Box::new(expr_view(*a))),
        Expr::Deref(a) => ExprView::Deref(Box::new(expr_view(*a))),
        Expr::AddrOf(a) => ExprView::AddrOf(Box::new(expr_view(*a))),
        Expr::FieldAccess(a, f) => ExprView::FieldAccess(Box::new(expr_view(*a)), f@),
        Expr::Cast(a, t) => ExprView::Cast(Box::new(expr_view(*a)), ctype_view(t)),
        Expr::Call(n, args) => ExprView::Call(n@, exprs_view(args@)),
        Expr::Ternary(c, a, b) => ExprView::Ternary(
            Box::new(expr_view(*c)),
            Box::new(expr_view(*a)),
            Box::new(expr_view(*b)),
        ),
        Expr::ArraySubscript(a, i) => ExprView::ArraySubscript(Box::new(expr_view(*a)), Box::new(expr_view(*i))),
        Expr::StringLit(s) => ExprView::StringLit(s@),
        Expr::SizeOf(n) => ExprView::SizeOf(n),
        Expr::StmtExpr(ss, v) => ExprView::StmtExpr(stmts_view(ss@), Box::new(expr_view(*v))),
        Expr::InitList(es) => ExprView::InitList(exprs_view(es@)),
    }
}

pub open spec fn exprs_view(s: Seq<Expr>) -> Seq<ExprView>
    decreases s,
{
    if s.len() == 0 {
        Seq::empty()
    } else {
        seq![expr_view(s[0])] + exprs_view(s.drop_first())
    }
}

pub open spec fn stmt_view(st: Stmt) -> StmtView
    decreases st,
{
    match st {
        Stmt::Declare(n, t, i) => StmtView::Declare(n@, ctype_view(t), opt_expr_view(i)),
        Stmt::Assign(n, e) => StmtView::Assign(n@, expr_view(e)),
        Stmt::If(c, a, b) => StmtView::If(expr_view(c), stmts_view(a@), stmts_view(b@)),
        Stmt::Return(e) => StmtView::Return(opt_expr_view(e)),
        Stmt::ExprStmt(e) => StmtView::ExprStmt(expr_view(e)),
        Stmt::Compound(ss) => StmtView::Compound(stmts_view(ss@)),
        Stmt::Goto(l) => StmtView::Goto(l@),
        Stmt::Label(l, b) => StmtView::Label(l@, Box::new(stmt_view(*b))),
        Stmt::Switch(e, cs) => StmtView::Switch(expr_view(e), cases_view(cs@)),
        Stmt::Break => StmtView::Break,
    }
}

pub open spec fn stmts_view(s: Seq<Stmt>) -> Seq<StmtView>
    decreases s,
{
    if s.len() == 0 {
        Seq::empty()
    } else {
        seq![stmt_view(s[0])] + stmts_view(s.drop_first())
    }
}

pub open spec fn cases_view(s: Seq<SwitchCase>) -> Seq<CaseView>
    decreases s,
{
    if s.len() == 0 {
        Seq::empty()
    } else {
        seq![CaseView { value: opt_expr_view(s[0].value), body: stmts_view(s[0].body@) }] + cases_view(s.drop_first())
    }
}

/// The constructor name of a width in the F* AST.
pub open spec fn width_text(w: IntWidth) -> Seq<char> {
    match w {
        IntWidth::W8 => "W8"@,
        IntWidth::W16 => "W16"@,
        IntWidth::W32 => "W32"@,
        IntWidth::W64 => "W64"@,
    }
}

/// The constructor name of a binary operator in the F* AST.
pub open spec fn binop_text(b: BinOp) -> Seq<char> {
    match b {
        BinOp::Add => "Add"@,
        BinOp::Sub => "Sub"@,
        BinOp::Mul => "Mul"@,
        BinOp::Div => "Div"@,
        BinOp::Mod => "Mod"@,
        BinOp::BitAnd => "BitAnd"@,
        BinOp::BitOr => "BitOr"@,
        BinOp::BitXor => "BitXor"@,
        BinOp::ShiftL => "ShiftL"@,
        BinOp::ShiftR => "ShiftR"@,
        BinOp::Eq => "Eq"@,
        BinOp::Ne => "Ne"@,
        BinOp::Lt => "Lt"@,
        BinOp::Le => "Le"@,
        BinOp::Gt => "Gt"@,
        BinOp::Ge => "Ge"@,
        BinOp::LAnd => "LAnd"@,
        BinOp::LOr => "LOr"@,
    }
}

/// The constructor name of a unary operator in the F* AST.
pub open spec fn unaryop_text(u: UnaryOp) -> Seq<char> {
    match u {
        UnaryOp::Neg => "Neg"@,
        UnaryOp::BitNot => "BitNot"@,
        UnaryOp::LNot => "LNot"@,
        UnaryOp::PreInc => "PreInc"@,
        UnaryOp::PreDec => "PreDec"@,
    }
}

impl IntWidth {
    /// The width's F* constructor name (see `width_text`).
    pub fn to_string(&self) -> (r: String)
        ensures
            r@ == width_text(*self),
    {
        let s = match self {
            IntWidth::W8 => "W8",
            IntWidth::W16 => "W16",
            IntWidth::W32 => "W32",
            IntWidth::W64 => "W64",
        };
        s.to_owned()
    }
}

impl BinOp {
    /// The operator's F* constructor name (see `binop_text`).
    pub fn to_string(&self) -> (r: String)
        ensures
            r@ == binop_text(*self),
    {
        let s = match self {
            BinOp::Add => "Add",
            BinOp::Sub => "Sub",
            BinOp::Mul => "Mul",
            BinOp::Div => "Div",
            BinOp::Mod => "Mod",
            BinOp::BitAnd => "BitAnd",
            BinOp::BitOr => "BitOr",
            BinOp::BitXor => "BitXor",
            BinOp::ShiftL => "ShiftL",
            BinOp::ShiftR => "ShiftR",
            BinOp::Eq => "Eq",
            BinOp::Ne => "Ne",
            BinOp::Lt => "Lt",
            BinOp::Le => "Le",
            BinOp::Gt => "Gt",
            BinOp::Ge => "Ge",
            BinOp::LAnd => "LAnd",
            BinOp::LOr => "LOr",
        };
        s.to_owned()
    }
}

impl UnaryOp {
    /// The operator's F* constructor name (see `unaryop_text`).
    pub fn to_string(&self) -> (r: String)
        ensures
            r@ == unaryop_text(*self),
    {
        let s = match self {
            UnaryOp::Neg => "Neg",
            UnaryOp::BitNot => "BitNot",
            UnaryOp::LNot => "LNot",
            UnaryOp::PreInc => "PreInc",
            UnaryOp::PreDec => "PreDec",
        };
        s.to_owned()
    }
}

} // verus!
